use vstd::prelude::*;
use vstd::arithmetic::div_mod::{lemma_div_is_ordered, lemma_div_by_multiple};
use crate::color::{ComputeError, Hsl, Rgb, hsl_to_rgb, mix, mix_of, rgb_of_hsl};

verus! {

/// Sum of the red channels of a sequence of colors.
pub open spec fn sum_r(s: Seq<Rgb>) -> nat
    decreases s.len(),
{
    if s.len() == 0 {
        0
    } else {
        (sum_r(s.drop_last()) + s.last().r) as nat
    }
}

/// Sum of the green channels of a sequence of colors.
pub open spec fn sum_g(s: Seq<Rgb>) -> nat
    decreases s.len(),
{
    if s.len() == 0 {
        0
    } else {
        (sum_g(s.drop_last()) + s.last().g) as nat
    }
}

/// Sum of the blue channels of a sequence of colors.
pub open spec fn sum_b(s: Seq<Rgb>) -> nat
    decreases s.len(),
{
    if s.len() == 0 {
        0
    } else {
        (sum_b(s.drop_last()) + s.last().b) as nat
    }
}

proof fn lemma_sum_rgb_take(s: Seq<Rgb>, i: int)
    requires
        0 <= i < s.len(),
    ensures
        sum_r(s.take(i + 1)) == sum_r(s.take(i)) + s[i].r,
        sum_g(s.take(i + 1)) == sum_g(s.take(i)) + s[i].g,
        sum_b(s.take(i + 1)) == sum_b(s.take(i)) + s[i].b,
{
    assert(s.take(i + 1).drop_last() =~= s.take(i));
    assert(s.take(i + 1).last() == s[i]);
}

proof fn lemma_sum_rgb_bound(s: Seq<Rgb>)
    ensures
        sum_r(s) <= 255 * s.len(),
        sum_g(s) <= 255 * s.len(),
        sum_b(s) <= 255 * s.len(),
    decreases s.len(),
{
    if s.len() > 0 {
        lemma_sum_rgb_bound(s.drop_last());
    }
}

/// The linear mean: each channel averaged independently over the set.
pub open spec fn spec_rgb_avg(s: Seq<Rgb>) -> Result<Rgb, ComputeError> {
    if s.len() == 0 {
        Err(ComputeError::EmptyInput)
    } else {
        Ok(Rgb {
            r: (sum_r(s) / s.len()) as u8,
            g: (sum_g(s) / s.len()) as u8,
            b: (sum_b(s) / s.len()) as u8,
        })
    }
}

/// Averages each channel independently across the input set.
///
/// The out-of-range check after averaging is a deliberate defensive branch;
/// an average of 8-bit values cannot exceed the 8-bit
/// range, so it is provably never taken.
pub fn rgb_avg(input: &Vec<Rgb>) -> (out: Result<Rgb, ComputeError>)
    ensures
        out == spec_rgb_avg(input@),
        input@.len() == 0 <==> out == Err::<Rgb, ComputeError>(ComputeError::EmptyInput),
{
    if input.len() == 0 {
        return Err(ComputeError::EmptyInput);
    }
    let ghost whole = input@;
    let n = input.len();
    let mut r_sum: u128 = 0;
    let mut g_sum: u128 = 0;
    let mut b_sum: u128 = 0;
    let mut i: usize = 0;
    while i < n
        invariant
            n == whole.len(),
            input@ == whole,
            0 <= i <= n,
            r_sum == sum_r(whole.take(i as int)),
            g_sum == sum_g(whole.take(i as int)),
            b_sum == sum_b(whole.take(i as int)),
        decreases n - i,
    {
        proof {
            lemma_sum_rgb_take(whole, i as int);
            lemma_sum_rgb_bound(whole.take(i as int));
        }
        let c = input[i];
        r_sum = r_sum + c.r as u128;
        g_sum = g_sum + c.g as u128;
        b_sum = b_sum + c.b as u128;
        i = i + 1;
    }
    proof {
        assert(whole.take(n as int) =~= whole);
        lemma_sum_rgb_bound(whole);
        lemma_div_is_ordered(sum_r(whole) as int, 255 * (whole.len() as int), whole.len() as int);
        lemma_div_is_ordered(sum_g(whole) as int, 255 * (whole.len() as int), whole.len() as int);
        lemma_div_is_ordered(sum_b(whole) as int, 255 * (whole.len() as int), whole.len() as int);
        lemma_div_by_multiple(255, whole.len() as int);
    }
    let r_avg: u128 = r_sum / n as u128;
    let g_avg: u128 = g_sum / n as u128;
    let b_avg: u128 = b_sum / n as u128;
    if r_avg > 255 {
        return Err(ComputeError::AverageOutOfRange);
    }
    if g_avg > 255 {
        return Err(ComputeError::AverageOutOfRange);
    }
    if b_avg > 255 {
        return Err(ComputeError::AverageOutOfRange);
    }
    Ok(Rgb { r: r_avg as u8, g: g_avg as u8, b: b_avg as u8 })
}

/// The blend weight for a set of n colors: the ratio 1/n on the 0-255 scale,
/// rounded to the nearest step (halves rounded up).
pub open spec fn spec_mix_ratio(n: nat) -> nat
    recommends
        n > 0,
{
    ((510 + n) / (2 * n)) as nat
}

/// The left fold of the blend over a non-empty set: each element after the
/// first is mixed into the running result with the fixed weight.
pub open spec fn mix_fold(s: Seq<Rgb>, w: u8) -> Rgb
    recommends
        s.len() > 0,
    decreases s.len(),
{
    if s.len() <= 1 {
        s[0]
    } else {
        mix_of(mix_fold(s.drop_last(), w), s.last(), w)
    }
}

/// The iterative blend-mix: a fold of the outside crate's mix with
/// weight 1/n.
pub open spec fn spec_less_mix(s: Seq<Rgb>) -> Result<Rgb, ComputeError> {
    if s.len() == 0 {
        Err(ComputeError::EmptyInput)
    } else {
        Ok(mix_fold(s, spec_mix_ratio(s.len()) as u8))
    }
}

proof fn lemma_mix_ratio_bound(n: nat)
    requires
        n > 0,
    ensures
        spec_mix_ratio(n) <= 255,
{
    assert((510 + n) / (2 * n) <= 255) by (nonlinear_arith)
        requires n > 0;
}

/// Folds the input with the outside crate's mix, blending the running result
/// with each subsequent color at the fixed weight 1/n.
///
/// The range check on the weight is a deliberate
/// defensive branch; 1/n lies in (0, 1] for every non-empty set, so it is
/// provably never taken. A set of identical colors blends to that color.
pub fn less_mix(input: &Vec<Rgb>) -> (out: Result<Rgb, ComputeError>)
    ensures
        out == spec_less_mix(input@),
        input@.len() == 0 <==> out == Err::<Rgb, ComputeError>(ComputeError::EmptyInput),
        (input@.len() > 0 && (forall|i: int| 0 <= i < input@.len() ==> #[trigger] input@[i] == input@[0]))
            ==> out == Ok::<Rgb, ComputeError>(input@[0]),
{
    if input.len() == 0 {
        return Err(ComputeError::EmptyInput);
    }
    let ghost whole = input@;
    let n = input.len();
    let k: u128 = (510 + n as u128) / (2 * n as u128);
    proof {
        lemma_mix_ratio_bound(n as nat);
    }
    if k > 255 {
        return Err(ComputeError::PercentageOutOfRange);
    }
    let w = k as u8;
    let ghost all_same = forall|j: int| 0 <= j < whole.len() ==> #[trigger] whole[j] == whole[0];
    let mut acc = input[0];
    let mut i: usize = 1;
    while i < n
        invariant
            n == whole.len(),
            input@ == whole,
            1 <= i <= n,
            w == spec_mix_ratio(n as nat),
            acc == mix_fold(whole.take(i as int), w),
            all_same == (forall|j: int| 0 <= j < whole.len() ==> #[trigger] whole[j] == whole[0]),
            all_same ==> acc == whole[0],
        decreases n - i,
    {
        let c = input[i];
        let next = mix(&acc, &c, w);
        proof {
            assert(whole.take(i + 1).drop_last() =~= whole.take(i as int));
            assert(whole.take(i + 1).last() == whole[i as int]);
        }
        acc = next;
        i = i + 1;
    }
    proof {
        assert(whole.take(n as int) =~= whole);
    }
    Ok(acc)
}

/// Sum of the saturations of a sequence of HSL colors.
pub open spec fn sum_s(s: Seq<Hsl>) -> nat
    decreases s.len(),
{
    if s.len() == 0 {
        0
    } else {
        (sum_s(s.drop_last()) + s.last().s) as nat
    }
}

/// Sum of the lightnesses of a sequence of HSL colors.
pub open spec fn sum_l(s: Seq<Hsl>) -> nat
    decreases s.len(),
{
    if s.len() == 0 {
        0
    } else {
        (sum_l(s.drop_last()) + s.last().l) as nat
    }
}

proof fn lemma_sum_hsl_take(s: Seq<Hsl>, i: int)
    requires
        0 <= i < s.len(),
    ensures
        sum_s(s.take(i + 1)) == sum_s(s.take(i)) + s[i].s,
        sum_l(s.take(i + 1)) == sum_l(s.take(i)) + s[i].l,
{
    assert(s.take(i + 1).drop_last() =~= s.take(i));
    assert(s.take(i + 1).last() == s[i]);
}

proof fn lemma_sum_hsl_bound(s: Seq<Hsl>)
    ensures
        sum_s(s) <= 255 * s.len(),
        sum_l(s) <= 255 * s.len(),
    decreases s.len(),
{
    if s.len() > 0 {
        lemma_sum_hsl_bound(s.drop_last());
    }
}

/// A negative angle shifted up by whole turns until it is non-negative;
/// a non-negative angle is left as it is.
pub open spec fn spec_norm_angle(raw: int) -> int
    decreases (if raw < 0 { 0 - raw } else { 0 }),
{
    if raw < 0 {
        spec_norm_angle(raw + 360)
    } else {
        raw
    }
}

/// The circular HSL mean of a set, given the hue that the caller's vector
/// averaging produced: saturation and lightness averaged arithmetically, the
/// hue normalized into the color wheel.
///
/// A normalized hue above 360 is out of range; at exactly 360 the outside
/// color crate would refuse the value, which surfaces as the umbrella fault.
pub open spec fn spec_hsl_mean(s: Seq<Hsl>, raw: int) -> Result<Hsl, ComputeError> {
    if s.len() == 0 {
        Err(ComputeError::EmptyInput)
    } else {
        let a = spec_norm_angle(raw);
        if a > 360 {
            Err(ComputeError::AngleOutOfRange)
        } else if a == 360 {
            Err(ComputeError::Fault)
        } else {
            Ok(Hsl {
                h: a as u16,
                s: (sum_s(s) / s.len()) as u8,
                l: (sum_l(s) / s.len()) as u8,
            })
        }
    }
}

fn normalize_angle(raw: i16) -> (a: i32)
    ensures
        a == spec_norm_angle(raw as int),
        a >= 0,
{
    let mut angle: i32 = raw as i32;
    while angle < 0
        invariant
            angle <= 32767,
            spec_norm_angle(raw as int) == spec_norm_angle(angle as int),
        decreases (if angle < 0 { 0 - angle } else { 0 }),
    {
        angle = angle + 360;
    }
    angle
}

/// The circular HSL mean. The caller supplies `raw_angle`, the atan2 angle in
/// degrees of the input hues' averaged unit vectors; that trigonometry runs on
/// floating point and stays outside the library. When the vector sum vanishes
/// (as for two opposite hues) atan2's convention still yields one fixed angle,
/// so the result is deterministic, never a fault.
///
/// Saturation and lightness are averaged arithmetically here; their
/// out-of-range checks are deliberate defensive branches
/// and are provably never taken. A zero-saturation mean comes back as the
/// plain grey of its lightness.
pub fn hsl_geo(input: &Vec<Hsl>, raw_angle: i16) -> (out: Result<Rgb, ComputeError>)
    ensures
        match spec_hsl_mean(input@, raw_angle as int) {
            Ok(m) => out == Ok::<Rgb, ComputeError>(rgb_of_hsl(m)) && (m.s == 0
                ==> out == Ok::<Rgb, ComputeError>(Rgb { r: m.l, g: m.l, b: m.l })),
            Err(e) => out == Err::<Rgb, ComputeError>(e),
        },
        input@.len() == 0 <==> out == Err::<Rgb, ComputeError>(ComputeError::EmptyInput),
{
    if input.len() == 0 {
        return Err(ComputeError::EmptyInput);
    }
    let ghost whole = input@;
    let n = input.len();
    let mut s_sum: u128 = 0;
    let mut l_sum: u128 = 0;
    let mut i: usize = 0;
    while i < n
        invariant
            n == whole.len(),
            input@ == whole,
            0 <= i <= n,
            s_sum == sum_s(whole.take(i as int)),
            l_sum == sum_l(whole.take(i as int)),
        decreases n - i,
    {
        proof {
            lemma_sum_hsl_take(whole, i as int);
            lemma_sum_hsl_bound(whole.take(i as int));
        }
        let c = input[i];
        s_sum = s_sum + c.s as u128;
        l_sum = l_sum + c.l as u128;
        i = i + 1;
    }
    proof {
        assert(whole.take(n as int) =~= whole);
        lemma_sum_hsl_bound(whole);
        lemma_div_is_ordered(sum_s(whole) as int, 255 * (whole.len() as int), whole.len() as int);
        lemma_div_is_ordered(sum_l(whole) as int, 255 * (whole.len() as int), whole.len() as int);
        lemma_div_by_multiple(255, whole.len() as int);
    }
    let s_avg: u128 = s_sum / n as u128;
    let l_avg: u128 = l_sum / n as u128;
    if s_avg > 255 {
        return Err(ComputeError::AverageOutOfRange);
    }
    if l_avg > 255 {
        return Err(ComputeError::AverageOutOfRange);
    }
    let angle = normalize_angle(raw_angle);
    if angle > 360 {
        return Err(ComputeError::AngleOutOfRange);
    }
    if angle == 360 {
        return Err(ComputeError::Fault);
    }
    let mean = Hsl { h: angle as u16, s: s_avg as u8, l: l_avg as u8 };
    Ok(hsl_to_rgb(&mean))
}

} // verus!

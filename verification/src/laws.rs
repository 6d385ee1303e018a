use vstd::prelude::*;
use vstd::arithmetic::div_mod::lemma_div_by_multiple;
use crate::aggregate::{
    mix_fold, spec_hsl_mean, spec_less_mix, spec_mix_ratio, spec_rgb_avg, sum_b, sum_g, sum_l,
    sum_r, sum_s,
};
use crate::color::{ComputeError, Hsl, Rgb};
use crate::render::Record;

verus! {

proof fn lemma_sum_rgb_constant(s: Seq<Rgb>, c: Rgb)
    requires
        forall|i: int| 0 <= i < s.len() ==> #[trigger] s[i] == c,
    ensures
        sum_r(s) == c.r * s.len(),
        sum_g(s) == c.g * s.len(),
        sum_b(s) == c.b * s.len(),
    decreases s.len(),
{
    if s.len() > 0 {
        assert(forall|i: int| 0 <= i < s.len() - 1 ==> #[trigger] s.drop_last()[i] == c);
        lemma_sum_rgb_constant(s.drop_last(), c);
        assert(s.last() == c);
        assert(c.r * (s.len() - 1) + c.r == c.r * s.len()) by (nonlinear_arith);
        assert(c.g * (s.len() - 1) + c.g == c.g * s.len()) by (nonlinear_arith);
        assert(c.b * (s.len() - 1) + c.b == c.b * s.len()) by (nonlinear_arith);
    }
}

/// The linear mean of any non-empty set of one repeated color is that color:
/// each channel sums to the color's channel taken once per element, and the
/// average undoes the repetition.
pub proof fn lemma_mean_constant(s: Seq<Rgb>, c: Rgb)
    requires
        s.len() > 0,
        forall|i: int| 0 <= i < s.len() ==> #[trigger] s[i] == c,
    ensures
        spec_rgb_avg(s) == Ok::<Rgb, ComputeError>(c),
{
    lemma_sum_rgb_constant(s, c);
    lemma_div_by_multiple(c.r as int, s.len() as int);
    lemma_div_by_multiple(c.g as int, s.len() as int);
    lemma_div_by_multiple(c.b as int, s.len() as int);
    assert(c.r * s.len() == (c.r as int) * (s.len() as int));
}

/// The linear mean of a single-element set is that element.
pub proof fn lemma_mean_singleton(c: Rgb)
    ensures
        spec_rgb_avg(seq![c]) == Ok::<Rgb, ComputeError>(c),
{
    lemma_mean_constant(seq![c], c);
}

/// The blend-mix of a single-element set is that element: there is nothing to
/// fold in after the first color.
pub proof fn lemma_blend_singleton(c: Rgb)
    ensures
        spec_less_mix(seq![c]) == Ok::<Rgb, ComputeError>(c),
{
    assert(mix_fold(seq![c], spec_mix_ratio(1) as u8) == c);
}

/// The circular HSL mean of a single-element set, fed the element's own hue
/// as the averaged angle, reproduces that element exactly.
pub proof fn lemma_hsl_mean_singleton(x: Hsl)
    requires
        x.wf(),
    ensures
        spec_hsl_mean(seq![x], x.h as int) == Ok::<Hsl, ComputeError>(x),
{
    assert(seq![x].drop_last() =~= Seq::<Hsl>::empty());
    assert(sum_s(Seq::<Hsl>::empty()) == 0);
    assert(sum_l(Seq::<Hsl>::empty()) == 0);
    assert(sum_s(seq![x]) == x.s);
    assert(sum_l(seq![x]) == x.l);
    lemma_div_by_multiple(x.s as int, 1);
    lemma_div_by_multiple(x.l as int, 1);
    assert(x.s * 1 == x.s as int);
    assert(x.l * 1 == x.l as int);
}

/// The circular HSL mean of two identical colors, fed their common hue as the
/// averaged angle, is that color exactly.
pub proof fn lemma_hsl_mean_pair(x: Hsl)
    requires
        x.wf(),
    ensures
        spec_hsl_mean(seq![x, x], x.h as int) == Ok::<Hsl, ComputeError>(x),
{
    assert(seq![x, x].drop_last() =~= seq![x]);
    assert(seq![x].drop_last() =~= Seq::<Hsl>::empty());
    assert(sum_s(Seq::<Hsl>::empty()) == 0);
    assert(sum_l(Seq::<Hsl>::empty()) == 0);
    assert(sum_s(seq![x]) == x.s);
    assert(sum_l(seq![x]) == x.l);
    assert(sum_s(seq![x, x]) == x.s + x.s);
    assert(sum_l(seq![x, x]) == x.l + x.l);
    lemma_div_by_multiple(x.s as int, 2);
    lemma_div_by_multiple(x.l as int, 2);
    assert(x.s * 2 == x.s + x.s);
    assert(x.l * 2 == x.l + x.l);
}

/// Every aggregate refuses an empty input with the empty-input error, and
/// with nothing worse.
pub proof fn lemma_empty_input(raw: int)
    ensures
        spec_rgb_avg(Seq::<Rgb>::empty()) == Err::<Rgb, ComputeError>(ComputeError::EmptyInput),
        spec_less_mix(Seq::<Rgb>::empty()) == Err::<Rgb, ComputeError>(ComputeError::EmptyInput),
        spec_hsl_mean(Seq::<Hsl>::empty(), raw) == Err::<Hsl, ComputeError>(
            ComputeError::EmptyInput,
        ),
{
}

/// A record never renders an empty stylesheet or an empty markup fragment:
/// the fixed scaffolding around the aggregates is always present.
pub proof fn lemma_render_nonempty(rec: Record)
    ensures
        rec.css_spec().len() > 0,
        rec.html_spec().len() > 0,
{
    reveal_strlit(".record-");
    assert(".record-"@.len() == 8);
    reveal_strlit("<div class='record record-");
    assert("<div class='record record-"@.len() == 26);
}

} // verus!

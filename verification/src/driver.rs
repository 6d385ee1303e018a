use vstd::prelude::*;
use vstd::arithmetic::div_mod::{lemma_fundamental_div_mod_converse_div,
    lemma_fundamental_div_mod_converse_mod};
use crate::aggregate::{less_mix, rgb_avg, spec_less_mix, spec_rgb_avg};
use crate::color::{ComputeError, Rgb};
use crate::render::Record;

verus! {

/// The fallback policy: a computed aggregate where there is one, solid black
/// where the computation refused.
pub open spec fn spec_or_black(r: Result<Rgb, ComputeError>) -> Rgb {
    match r {
        Ok(c) => c,
        Err(_) => Rgb { r: 0, g: 0, b: 0 },
    }
}

/// Substitutes solid black for an aggregate that could not be computed, so
/// that rendering always proceeds.
pub fn or_black(r: &Result<Rgb, ComputeError>) -> (c: Rgb)
    ensures
        c == spec_or_black(*r),
{
    match r {
        Ok(c) => *c,
        Err(_) => Rgb::black(),
    }
}

/// The full schedule of sample sets: every set size from 2 up to `max_len`,
/// each repeated for `rounds` rounds, in order.
pub fn create_iter(max_len: usize, rounds: usize) -> (v: Vec<(usize, usize)>)
    ensures
        v@.len() == if max_len < 2 {
            0int
        } else {
            (max_len - 1) * rounds
        },
        forall|k: int| 0 <= k < v@.len() ==> #[trigger] v@[k] == (
            (2 + k / (rounds as int)) as usize,
            (k % (rounds as int)) as usize,
        ),
{
    let mut v: Vec<(usize, usize)> = Vec::new();
    if max_len < 2 {
        return v;
    }
    let count = max_len - 1;
    let mut off: usize = 0;
    while off < count
        invariant
            count == max_len - 1,
            max_len >= 2,
            0 <= off <= count,
            v@.len() == off * rounds,
            forall|k: int| 0 <= k < v@.len() ==> #[trigger] v@[k] == (
                (2 + k / (rounds as int)) as usize,
                (k % (rounds as int)) as usize,
            ),
        decreases count - off,
    {
        let len = off + 2;
        let mut round: usize = 0;
        while round < rounds
            invariant
                count == max_len - 1,
                0 <= off < count,
                len == off + 2,
                v@.len() == off * rounds + round,
                0 <= round <= rounds,
                forall|k: int| 0 <= k < v@.len() ==> #[trigger] v@[k] == (
                    (2 + k / (rounds as int)) as usize,
                    (k % (rounds as int)) as usize,
                ),
            decreases rounds - round,
        {
            proof {
                lemma_fundamental_div_mod_converse_div(
                    off * rounds + round,
                    rounds as int,
                    off as int,
                    round as int,
                );
                lemma_fundamental_div_mod_converse_mod(
                    off * rounds + round,
                    rounds as int,
                    off as int,
                    round as int,
                );
            }
            v.push((len, round));
            round = round + 1;
        }
        proof {
            assert(off * rounds + rounds == (off + 1) * rounds) by (nonlinear_arith);
        }
        off = off + 1;
    }
    proof {
        assert(count * rounds == (max_len - 1) * rounds);
    }
    v
}

/// Assembles one record: the aggregates are computed here and every failure
/// falls back to black. The circular HSL mean is handed in by the caller,
/// whose vector averaging runs outside the library; a fault met on the way
/// (the outside color crate refusing a conversion) arrives as its error and
/// falls back like the rest.
pub fn build_record(rid: String, input: Vec<Rgb>, geo: Result<Rgb, ComputeError>) -> (rec: Record)
    ensures
        rec.id == rid,
        rec.input == input,
        rec.rgb_avg == spec_or_black(spec_rgb_avg(input@)),
        rec.less_mix == spec_or_black(spec_less_mix(input@)),
        rec.hsl_geo == spec_or_black(geo),
{
    let avg = rgb_avg(&input);
    let mixed = less_mix(&input);
    Record {
        id: rid,
        rgb_avg: or_black(&avg),
        less_mix: or_black(&mixed),
        hsl_geo: or_black(&geo),
        input,
    }
}

} // verus!

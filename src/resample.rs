use vstd::prelude::*;

verus! {

/// Numerator of the rational approximation of pi used for the filter cutoff.
pub const PI_NUM: u64 = 355;

/// Denominator of the rational approximation of pi.
pub const PI_DEN: u64 = 113;

/// The low-pass coefficient `alpha = dt / (rc + dt)` with `rc = 1 / (2 pi fc)`,
/// `fc = output_rate / 2` and `dt = 1 / input_rate`, as the fraction
/// `pi * out / (in + pi * out)`: its numerator.
pub open spec fn alpha_num(output_rate: int) -> int {
    PI_NUM * output_rate
}

/// The denominator of the low-pass coefficient.
pub open spec fn alpha_den(input_rate: int, output_rate: int) -> int {
    PI_DEN * input_rate + PI_NUM * output_rate
}

/// One step of the first-order filter, `prev + alpha * (x - prev)`, rounded
/// toward `prev`.
pub open spec fn filter_step(prev: int, x: int, num: int, den: int) -> int {
    if x >= prev {
        prev + (num * (x - prev)) / den
    } else {
        prev - (num * (prev - x)) / den
    }
}

/// The filtered signal at sample `i`; the filter starts at the first sample.
pub open spec fn filtered(input: Seq<i16>, num: int, den: int, i: int) -> int
    decreases i,
{
    if i <= 0 {
        input[0] as int
    } else {
        filter_step(filtered(input, num, den, i - 1), input[i] as int, num, den)
    }
}

/// Every sample of `s` equals `c`.
pub open spec fn is_constant(s: Seq<i16>, c: i16) -> bool {
    forall|q: int| 0 <= q < s.len() ==> s[q] == c
}

/// `ceil(n / f)`.
pub open spec fn ceil_div(n: int, f: int) -> int {
    (n + f - 1) / f
}

/// A filter step lands between the previous value and the input.
proof fn lemma_step_between(prev: int, x: int, num: int, den: int)
    requires
        0 <= num <= den,
        den > 0,
    ensures
        prev <= x ==> prev <= filter_step(prev, x, num, den) <= x,
        x < prev ==> x <= filter_step(prev, x, num, den) <= prev,
{
    if x >= prev {
        assert(0 <= num * (x - prev) <= den * (x - prev)) by (nonlinear_arith)
            requires
                0 <= num <= den,
                x >= prev,
        ;
        vstd::arithmetic::div_mod::lemma_div_is_ordered(num * (x - prev), den * (x - prev), den);
        vstd::arithmetic::div_mod::lemma_div_multiples_vanish(x - prev, den);
        vstd::arithmetic::div_mod::lemma_div_pos_is_pos(num * (x - prev), den);
    } else {
        assert(0 <= num * (prev - x) <= den * (prev - x)) by (nonlinear_arith)
            requires
                0 <= num <= den,
                x < prev,
        ;
        vstd::arithmetic::div_mod::lemma_div_is_ordered(num * (prev - x), den * (prev - x), den);
        vstd::arithmetic::div_mod::lemma_div_multiples_vanish(prev - x, den);
        vstd::arithmetic::div_mod::lemma_div_pos_is_pos(num * (prev - x), den);
    }
}

/// A constant signal passes through the filter unchanged.
pub proof fn lemma_filtered_constant(input: Seq<i16>, num: int, den: int, c: i16, i: int)
    requires
        den > 0,
        0 <= i < input.len(),
        forall|q: int| 0 <= q < input.len() ==> input[q] == c,
    ensures
        filtered(input, num, den, i) == c as int,
    decreases i,
{
    if i > 0 {
        lemma_filtered_constant(input, num, den, c, i - 1);
        assert(num * 0 == 0);
    }
}

/// Low-pass filters 16-bit samples at `input_rate` with cutoff at half of
/// `output_rate`, then keeps every `input_rate / output_rate`-th filtered
/// sample. Filter state is not carried from one call to the next.
pub fn resample_audio(input: &[i16], input_rate: usize, output_rate: usize) -> (output: Vec<i16>)
    requires
        0 < output_rate <= input_rate <= u32::MAX,
        input_rate % output_rate == 0,
    ensures
        output@.len() == ceil_div(input@.len() as int, (input_rate / output_rate) as int),
        forall|j: int|
            0 <= j < output@.len() ==> (#[trigger] output@[j]) as int == filtered(
                input@,
                alpha_num(output_rate as int),
                alpha_den(input_rate as int, output_rate as int),
                j * (input_rate / output_rate) as int,
            ),
        forall|c: i16| #[trigger] is_constant(input@, c) ==> is_constant(output@, c),
{
    let factor = input_rate / output_rate;
    let num: u64 = PI_NUM * output_rate as u64;
    let den: u64 = PI_DEN * input_rate as u64 + PI_NUM * output_rate as u64;
    let ghost inum = alpha_num(output_rate as int);
    let ghost iden = alpha_den(input_rate as int, output_rate as int);
    assert(factor >= 1) by {
        vstd::arithmetic::div_mod::lemma_div_is_ordered(
            output_rate as int,
            input_rate as int,
            output_rate as int,
        );
        vstd::arithmetic::div_mod::lemma_div_by_self(output_rate as int);
    }
    let mut output: Vec<i16> = Vec::new();
    if input.len() == 0 {
        proof {
            vstd::arithmetic::div_mod::lemma_fundamental_div_mod_converse(
                factor - 1,
                factor as int,
                0,
                factor - 1,
            );
        }
        return output;
    }
    let n = input.len();
    let mut previous: i16 = input[0];
    let mut countdown: usize = 0;
    let mut index: usize = 0;
    while index < n
        invariant
            n == input@.len(),
            n > 0,
            factor == input_rate / output_rate,
            factor >= 1,
            num == inum,
            den == iden,
            0 < num <= den,
            den <= 4_000_000_000_000,
            index <= n,
            countdown < factor,
            output@.len() * factor == index + countdown,
            index == 0 ==> previous == input@[0],
            index > 0 ==> previous as int == filtered(input@, inum, iden, index - 1),
            forall|j: int|
                0 <= j < output@.len() ==> (#[trigger] output@[j]) as int == filtered(
                    input@,
                    inum,
                    iden,
                    j * factor,
                ),
        decreases n - index,
    {
        let x = input[index];
        let ghost fprev = if index == 0 {
            input@[0] as int
        } else {
            filtered(input@, inum, iden, index - 1)
        };
        proof {
            lemma_step_between(previous as int, x as int, num as int, den as int);
        }
        let filtered_sample: i16 = if x >= previous {
            let diff = (x as i64 - previous as i64) as u64;
            assert(num * diff <= 4_000_000_000_000 * 65536) by (nonlinear_arith)
                requires
                    num <= 4_000_000_000_000,
                    diff <= 65536,
            ;
            (previous as i64 + ((num * diff) / den) as i64) as i16
        } else {
            let diff = (previous as i64 - x as i64) as u64;
            assert(num * diff <= 4_000_000_000_000 * 65536) by (nonlinear_arith)
                requires
                    num <= 4_000_000_000_000,
                    diff <= 65536,
            ;
            (previous as i64 - ((num * diff) / den) as i64) as i16
        };
        assert(filtered_sample as int == filtered(input@, inum, iden, index as int));
        if countdown == 0 {
            assert((output@.len() + 1) * factor == output@.len() * factor + factor)
                by (nonlinear_arith);
            output.push(filtered_sample);
            countdown = factor;
        }
        countdown = countdown - 1;
        previous = filtered_sample;
        index = index + 1;
    }
    proof {
        let len = output@.len() as int;
        let f = factor as int;
        assert(len * f == n + countdown);
        vstd::arithmetic::div_mod::lemma_fundamental_div_mod_converse(
            n + f - 1,
            f,
            len,
            f - 1 - countdown,
        );
        assert forall|c: i16| #[trigger] is_constant(input@, c) implies is_constant(output@, c) by {
            assert forall|j: int| 0 <= j < output@.len() implies #[trigger] output@[j] == c by {
                assert(j * f <= len * f - f) by (nonlinear_arith)
                    requires
                        0 <= j < len,
                        f > 0,
                ;
                assert(j * f >= 0) by (nonlinear_arith)
                    requires
                        0 <= j,
                        f > 0,
                ;
                lemma_filtered_constant(input@, inum, iden, c, j * f);
            }
        }
    }
    output
}

} // verus!

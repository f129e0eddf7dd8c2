//! WCAG contrast of two colors, see
//! <https://www.w3.org/TR/2008/REC-WCAG20-20081211/#visual-audio-contrast-contrast>.
//!
//! All values are held in fixed point. A transformed channel value is a whole
//! number of steps of which [`LUMINANCE_ONE`] make up 1; a product of two of them is
//! rounded down to a whole number of steps. A relative luminance is a whole number
//! of steps of which [`LUMINANCE_MAX`] make up 1, and a contrast ratio is rounded
//! down to a whole number of steps of which [`RATIO_ONE`] make up 1.
//!
//! How near a transformed channel value is to the exact power of 2.4 is proved in
//! [`crate::contrast_accuracy`].

use vstd::prelude::*;
use crate::color::RGB;
use crate::component::{FloatComponent, VALUE_MAX};
use crate::rgb::{Rgb, RgbChannel};

verus! {

/// The steps that make up 1 in a transformed channel value.
pub const LUMINANCE_ONE: u64 = 10_000_000;

/// The relative luminance of white.
pub const LUMINANCE_MAX: u64 = 100_000_000_000;

/// What is added to both relative luminances of a contrast ratio: 0.05.
pub const LUMINANCE_OFFSET: u64 = 5_000_000_000;

/// The steps that make up 1 in a contrast ratio.
pub const RATIO_ONE: u64 = 1_000_000;

/// The greatest channel value that is transformed by division: 0.03928.
pub const LINEAR_LIMIT: u64 = 100_164_000_000_000_000;

/// `LUMINANCE_ONE` to the power of 4.
pub const LUMINANCE_ONE_POW4: u128 = 10_000_000_000_000_000_000_000_000_000;

/// Contrast levels based on
/// <https://www.w3.org/TR/2008/REC-WCAG20-20081211/#visual-audio-contrast-contrast>.
#[derive(Debug, PartialEq, Eq, Hash, PartialOrd, Ord, Clone, Copy, Structural)]
pub enum ContrastLevel {
    /// Minimum contrast for text.
    AA,
    /// Enhanced contrast for text.
    AAA,
    /// Minimum contrast for large text.
    LargeAA,
    /// Enhanced contrast for large text.
    LargeAAA,
}

/// The name that the first standard had for a contrast level.
pub type ContrastTarget = ContrastLevel;

impl ContrastLevel {
    /// The place of the level in the order of the levels.
    pub open spec fn rank(&self) -> nat {
        match self {
            ContrastLevel::AA => 0,
            ContrastLevel::AAA => 1,
            ContrastLevel::LargeAA => 2,
            ContrastLevel::LargeAAA => 3,
        }
    }

    /// The name of the level as it is shown to a reader.
    pub open spec fn spec_as_str(&self) -> &'static str {
        match self {
            ContrastLevel::AA => "AA",
            ContrastLevel::AAA => "AAA",
            ContrastLevel::LargeAA => "AA (Large Text)",
            ContrastLevel::LargeAAA => "AAA (Large Text)",
        }
    }

    /// The name of the level as it is shown to a reader.
    #[verifier::when_used_as_spec(spec_as_str)]
    pub fn as_str(&self) -> (name: &'static str)
        ensures
            name == self.spec_as_str(),
    {
        match self {
            ContrastLevel::AA => "AA",
            ContrastLevel::AAA => "AAA",
            ContrastLevel::LargeAA => "AA (Large Text)",
            ContrastLevel::LargeAAA => "AAA (Large Text)",
        }
    }

    /// The name of the level as it is shown to a reader, as a string of its own.
    pub fn to_string(&self) -> (name: String)
        ensures
            name@ == self.spec_as_str()@,
    {
        self.as_str().to_owned()
    }
}

/// The fifth power of a number.
pub open spec fn pow5(r: nat) -> nat {
    r * r * r * r * r
}

/// Whether `root / LUMINANCE_ONE` is the fifth root of `x / LUMINANCE_ONE`,
/// rounded down to a whole number of steps.
pub open spec fn is_fifth_root(root: nat, x: nat) -> bool {
    pow5(root) <= x * LUMINANCE_ONE_POW4 < pow5(root + 1)
}

/// The fifth root of `x / LUMINANCE_ONE`, rounded down to a whole number of steps.
pub open spec fn fifth_root(x: nat) -> nat {
    choose|root: nat| is_fifth_root(root, x)
}

/// The product of two values in steps, rounded down to a whole number of steps.
pub open spec fn fixed_mul(a: nat, b: nat) -> nat {
    a * b / (LUMINANCE_ONE as nat)
}

/// `r / LUMINANCE_ONE` to the power of 12, in steps: three squarings and a product,
/// each rounded down.
pub open spec fn twelfth_power(r: nat) -> nat {
    let r2 = fixed_mul(r, r);
    let r4 = fixed_mul(r2, r2);
    let r8 = fixed_mul(r4, r4);
    fixed_mul(r8, r4)
}

/// `(c + 0.055) / 1.055` for a channel value `c`, rounded down to a whole number of steps.
pub open spec fn gamma_base(units: nat) -> nat {
    ((1000 * units + 55 * VALUE_MAX) * LUMINANCE_ONE / (1055 * VALUE_MAX)) as nat
}

/// The transformed value of a channel value `c`, in steps: `c / 12.92` if `c` is
/// not above 0.03928, else `((c + 0.055) / 1.055)` to the power of 2.4, taken as the
/// twelfth power of the fifth root.
pub open spec fn transformed_value(units: nat) -> nat {
    if units <= LINEAR_LIMIT {
        (100 * units * LUMINANCE_ONE / (1292 * VALUE_MAX)) as nat
    } else {
        twelfth_power(fifth_root(gamma_base(units)))
    }
}

/// The relative luminance of a color: 0.2126 of its transformed red, 0.7152 of its
/// transformed green and 0.0722 of its transformed blue.
pub open spec fn luminance(color: Rgb) -> nat {
    2126 * transformed_value(color.red@) + 7152 * transformed_value(color.green@) + 722
        * transformed_value(color.blue@)
}

/// The contrast ratio of two relative luminances: the greater of them plus 0.05,
/// divided by the lesser of them plus 0.05, rounded down to a whole number of steps.
pub open spec fn ratio_of(luminance_1: nat, luminance_2: nat) -> nat {
    if luminance_1 > luminance_2 {
        ((luminance_1 + LUMINANCE_OFFSET) * RATIO_ONE / (luminance_2 + LUMINANCE_OFFSET)) as nat
    } else {
        ((luminance_2 + LUMINANCE_OFFSET) * RATIO_ONE / (luminance_1 + LUMINANCE_OFFSET)) as nat
    }
}

/// The contrast ratio of two colors.
pub open spec fn contrast_ratio(color_1: Rgb, color_2: Rgb) -> nat {
    ratio_of(luminance(color_1), luminance(color_2))
}

/// The levels that a contrast ratio reaches, in their order: 3 reaches the minimum
/// for large text, 4.5 the minimum for text and the enhanced level for large text,
/// 7 the enhanced level for text.
pub open spec fn levels_at(ratio: nat) -> Seq<ContrastLevel> {
    if ratio >= 7 * RATIO_ONE {
        seq![ContrastLevel::AA, ContrastLevel::AAA, ContrastLevel::LargeAA, ContrastLevel::LargeAAA]
    } else if 2 * ratio >= 9 * RATIO_ONE {
        seq![ContrastLevel::AA, ContrastLevel::LargeAA, ContrastLevel::LargeAAA]
    } else if ratio >= 3 * RATIO_ONE {
        seq![ContrastLevel::LargeAA]
    } else {
        Seq::empty()
    }
}

/// The fifth power of the greater of two numbers is the greater fifth power.
pub proof fn lemma_pow5_increases(a: nat, b: nat)
    requires
        a <= b,
    ensures
        pow5(a) <= pow5(b),
{
    assert(a * a <= b * b) by (nonlinear_arith)
        requires
            a <= b,
    ;
    assert(a * a * a <= b * b * b) by (nonlinear_arith)
        requires
            a <= b,
            a * a <= b * b,
    ;
    assert(a * a * a * a <= b * b * b * b) by (nonlinear_arith)
        requires
            a <= b,
            a * a * a <= b * b * b,
    ;
    assert(a * a * a * a * a <= b * b * b * b * b) by (nonlinear_arith)
        requires
            a <= b,
            a * a * a * a <= b * b * b * b,
    ;
}

/// There is one fifth root rounded down, and no other.
pub proof fn lemma_fifth_root_unique(root: nat, x: nat)
    requires
        is_fifth_root(root, x),
    ensures
        fifth_root(x) == root,
{
    let chosen = fifth_root(x);
    assert(is_fifth_root(chosen, x));
    if chosen < root {
        lemma_pow5_increases(chosen + 1, root);
    }
    if root < chosen {
        lemma_pow5_increases(root + 1, chosen);
    }
}

/// The fifth power of a value that is not above `LUMINANCE_ONE + 1`.
fn fifth_power(r: u64) -> (power: u128)
    requires
        r <= LUMINANCE_ONE + 1,
    ensures
        power == pow5(r as nat),
{
    let wide = r as u128;
    assert(wide * wide <= 100_000_020_000_001) by (nonlinear_arith)
        requires
            wide <= 10_000_001,
    ;
    let r2 = wide * wide;
    assert(r2 * wide <= 1_000_000_300_000_030_000_001) by (nonlinear_arith)
        requires
            wide <= 10_000_001,
            r2 <= 100_000_020_000_001,
    ;
    let r3 = r2 * wide;
    assert(r3 * wide <= 10_000_004_000_000_600_000_040_000_001) by (nonlinear_arith)
        requires
            wide <= 10_000_001,
            r3 <= 1_000_000_300_000_030_000_001,
    ;
    let r4 = r3 * wide;
    assert(r4 * wide <= 100_000_050_000_010_000_001_000_000_050_000_001) by (nonlinear_arith)
        requires
            wide <= 10_000_001,
            r4 <= 10_000_004_000_000_600_000_040_000_001,
    ;
    r4 * wide
}

/// The fifth root of `x / LUMINANCE_ONE`, rounded down to a whole number of steps.
pub fn fifth_root_steps(x: u64) -> (root: u64)
    requires
        x <= LUMINANCE_ONE,
    ensures
        root == fifth_root(x as nat),
        is_fifth_root(root as nat, x as nat),
        root <= LUMINANCE_ONE,
{
    let target: u128 = x as u128 * LUMINANCE_ONE_POW4;
    let mut low: u64 = 0;
    let mut high: u64 = LUMINANCE_ONE + 1;
    assert(pow5(0) == 0);
    assert(pow5((LUMINANCE_ONE + 1) as nat) > LUMINANCE_ONE * LUMINANCE_ONE_POW4) by {
        assert(pow5(10_000_001) == 10_000_001 * 10_000_001 * 10_000_001 * 10_000_001
            * 10_000_001);
    }
    while high - low > 1
        invariant
            low < high <= LUMINANCE_ONE + 1,
            target == x * LUMINANCE_ONE_POW4,
            pow5(low as nat) <= target < pow5(high as nat),
        decreases high - low,
    {
        let middle = low + (high - low) / 2;
        if fifth_power(middle) <= target {
            low = middle;
        } else {
            high = middle;
        }
    }
    proof {
        lemma_fifth_root_unique(low as nat, x as nat);
    }
    low
}

/// The product of two values in steps, rounded down to a whole number of steps.
fn fixed_product(a: u64, b: u64) -> (product: u64)
    requires
        a <= LUMINANCE_ONE,
        b <= LUMINANCE_ONE,
    ensures
        product == fixed_mul(a as nat, b as nat),
        product <= LUMINANCE_ONE,
{
    assert(a * b <= LUMINANCE_ONE * LUMINANCE_ONE) by (nonlinear_arith)
        requires
            a <= LUMINANCE_ONE,
            b <= LUMINANCE_ONE,
    ;
    a * b / LUMINANCE_ONE
}

/// Transforms a channel value as the relative luminance asks for it: `c / 12.92` if
/// it is not above 0.03928, else `((c + 0.055) / 1.055)` to the power of 2.4.
pub fn transform_color_value(channel: &RgbChannel) -> (transformed: u64)
    ensures
        transformed == transformed_value(channel@),
        transformed <= LUMINANCE_ONE,
{
    let units = channel.value() as u128;
    let one = LUMINANCE_ONE as u128;
    if units <= LINEAR_LIMIT as u128 {
        let divisor = 1292 * VALUE_MAX as u128;
        assert(100 * units * one <= divisor * one) by (nonlinear_arith)
            requires
                100 * units <= divisor,
                one == 10_000_000,
                divisor == 3_294_600_000_000_000_000_000,
        ;
        let scaled = 100 * units * one;
        assert(scaled / divisor <= one) by (nonlinear_arith)
            requires
                scaled <= divisor * one,
                divisor > 0,
        ;
        (scaled / divisor) as u64
    } else {
        let divisor = 1055 * VALUE_MAX as u128;
        let sum = 1000 * units + 55 * VALUE_MAX as u128;
        assert(sum * one <= divisor * one) by (nonlinear_arith)
            requires
                sum <= divisor,
                one == 10_000_000,
                divisor == 2_690_250_000_000_000_000_000,
        ;
        let scaled = sum * one;
        assert(scaled / divisor <= one) by (nonlinear_arith)
            requires
                scaled <= divisor * one,
                divisor > 0,
        ;
        let base = (scaled / divisor) as u64;
        let r = fifth_root_steps(base);
        let r2 = fixed_product(r, r);
        let r4 = fixed_product(r2, r2);
        let r8 = fixed_product(r4, r4);
        fixed_product(r8, r4)
    }
}

/// Calculates the relative luminance of a color. The alpha channel is not looked at.
pub fn relative_luminance(color: &Rgb) -> (relative: u64)
    ensures
        relative == luminance(*color),
        relative <= LUMINANCE_MAX,
{
    2126 * transform_color_value(color.red()) + 7152 * transform_color_value(color.green()) + 722
        * transform_color_value(color.blue())
}

/// Calculates the contrast ratio of two relative luminances.
pub fn contrast_ratio_of_luminances(luminance_1: u64, luminance_2: u64) -> (ratio: u64)
    requires
        luminance_1 <= LUMINANCE_MAX,
        luminance_2 <= LUMINANCE_MAX,
    ensures
        ratio == ratio_of(luminance_1 as nat, luminance_2 as nat),
        RATIO_ONE <= ratio <= 21 * RATIO_ONE,
{
    let lighter_color_luminance;
    let darker_color_luminance;
    if luminance_1 > luminance_2 {
        lighter_color_luminance = luminance_1;
        darker_color_luminance = luminance_2;
    } else {
        lighter_color_luminance = luminance_2;
        darker_color_luminance = luminance_1;
    }
    let ratio = (lighter_color_luminance as u128 + LUMINANCE_OFFSET as u128) * RATIO_ONE as u128
        / (darker_color_luminance as u128 + LUMINANCE_OFFSET as u128);
    assert(RATIO_ONE <= ratio <= 21 * RATIO_ONE) by (nonlinear_arith)
        requires
            darker_color_luminance <= lighter_color_luminance <= LUMINANCE_MAX,
            ratio == (lighter_color_luminance + LUMINANCE_OFFSET) * RATIO_ONE / (
            darker_color_luminance + LUMINANCE_OFFSET),
            LUMINANCE_MAX == 100_000_000_000,
            LUMINANCE_OFFSET == 5_000_000_000,
            RATIO_ONE == 1_000_000,
    ;
    ratio as u64
}

/// Calculates the WCAG color ratio of two colors.
/// The same color inputs will produce the same output regardless of position.
///
/// The result is the number on the left side of the WCAG color ratio display syntax,
/// in steps of which [`RATIO_ONE`] make up 1. E.g. a result of 4500000 would be
/// written "4.5:1".
// https://www.w3.org/TR/WCAG20-TECHS/G18.html#G18-tests
pub fn contrast_ratio_val(color_1: &Rgb, color_2: &Rgb) -> (ratio: u64)
    ensures
        ratio == contrast_ratio(*color_1, *color_2),
        RATIO_ONE <= ratio <= 21 * RATIO_ONE,
{
    let color_1_luminance = relative_luminance(color_1);
    let color_2_luminance = relative_luminance(color_2);
    contrast_ratio_of_luminances(color_1_luminance, color_2_luminance)
}

/// The levels that a contrast ratio reaches, in their order.
pub fn levels_reached_at(ratio: u64) -> (reached: Vec<ContrastLevel>)
    ensures
        reached@ == levels_at(ratio as nat),
{
    let mut reached: Vec<ContrastLevel> = Vec::new();
    if ratio >= 3 * RATIO_ONE {
        if ratio as u128 * 2 >= 9 * RATIO_ONE as u128 {
            reached.push(ContrastLevel::AA);
            if ratio >= 7 * RATIO_ONE {
                reached.push(ContrastLevel::AAA);
            }
        }
        reached.push(ContrastLevel::LargeAA);
        if ratio as u128 * 2 >= 9 * RATIO_ONE as u128 {
            reached.push(ContrastLevel::LargeAAA);
        }
    }
    assert(reached@ =~= levels_at(ratio as nat));
    reached
}

/// Checks which WCAG contrast ratio levels this combination of colors reach.
/// An empty result means no level is reached.
/// See <https://www.w3.org/TR/2008/REC-WCAG20-20081211/#visual-audio-contrast-contrast> for details.
// https://webaim.org/resources/contrastchecker/
pub fn contrast_ratio_levels_reached(color_1: &Rgb, color_2: &Rgb) -> (reached: Vec<
    ContrastLevel,
>)
    ensures
        reached@ == levels_at(contrast_ratio(*color_1, *color_2)),
{
    let ratio = contrast_ratio_val(color_1, color_2);
    levels_reached_at(ratio)
}

/// The contrast ratio of two colors whose channels are single bytes.
pub open spec fn bytes_contrast_ratio(color_1: RGB, color_2: RGB) -> nat {
    contrast_ratio(Rgb::of_bytes(color_1), Rgb::of_bytes(color_2))
}

/// Calculates the WCAG color ratio of two colors, see [`contrast_ratio_val`].
// https://www.w3.org/TR/WCAG20-TECHS/G18.html#G18-tests
pub fn wcag_contrast_ratio(color_1: &RGB, color_2: &RGB) -> (ratio: u64)
    ensures
        ratio == bytes_contrast_ratio(*color_1, *color_2),
        RATIO_ONE <= ratio <= 21 * RATIO_ONE,
{
    contrast_ratio_val(&Rgb::from_bytes(color_1), &Rgb::from_bytes(color_2))
}

/// Checks which WCAG contrast ratio targets this combination of colors reach.
/// An empty result means no target is reached.
pub fn contrast_ratio_targets_reached(color_1: &RGB, color_2: &RGB) -> (targets_reached: Vec<
    ContrastTarget,
>)
    ensures
        targets_reached@ == levels_at(bytes_contrast_ratio(*color_1, *color_2)),
{
    let ratio = wcag_contrast_ratio(color_1, color_2);
    levels_reached_at(ratio)
}

/// Whether `at` is the place of the first of the options whose contrast ratio to
/// `initial_color` no other option exceeds.
pub open spec fn is_best_contrast(initial_color: Rgb, color_options: Seq<Rgb>, at: int) -> bool {
    &&& 0 <= at < color_options.len()
    &&& forall|j: int|
        0 <= j < color_options.len() ==> #[trigger] contrast_ratio(initial_color, color_options[j])
            <= contrast_ratio(initial_color, color_options[at])
    &&& forall|j: int|
        0 <= j < at ==> #[trigger] contrast_ratio(initial_color, color_options[j])
            < contrast_ratio(initial_color, color_options[at])
}

/// Finds the place of the `color_options` value that has the best contrast to
/// `initial_color`: the first of those whose contrast ratio no other exceeds.
/// Without any option there is no such place.
pub fn best_contrast_at(initial_color: &Rgb, color_options: &[Rgb]) -> (best: Option<usize>)
    ensures
        color_options@.len() == 0 ==> best is None,
        color_options@.len() > 0 ==> (best matches Some(at) && is_best_contrast(
            *initial_color,
            color_options@,
            at as int,
        )),
{
    let mut best_contrast_ratio: u64 = 0;
    let mut best: Option<usize> = None;

    let mut at: usize = 0;
    while at < color_options.len()
        invariant
            at <= color_options.len(),
            at == 0 ==> best is None && best_contrast_ratio == 0,
            at > 0 ==> (best matches Some(k) && k < at && best_contrast_ratio == contrast_ratio(
                *initial_color,
                color_options[k as int],
            )),
            forall|j: int|
                0 <= j < at ==> #[trigger] contrast_ratio(*initial_color, color_options[j])
                    <= best_contrast_ratio,
            forall|j: int|
                best matches Some(k) && 0 <= j < k ==> #[trigger] contrast_ratio(
                    *initial_color,
                    color_options[j],
                ) < best_contrast_ratio,
        decreases color_options.len() - at,
    {
        let contrast_ratio = contrast_ratio_val(initial_color, &color_options[at]);
        if contrast_ratio > best_contrast_ratio {
            best_contrast_ratio = contrast_ratio;
            best = Some(at);
        }
        at += 1;
    }
    best
}

/// The colors of the given single byte values, in their order.
pub open spec fn colors_of_bytes(colors: Seq<&RGB>) -> Seq<Rgb> {
    Seq::new(colors.len(), |i: int| Rgb::of_bytes(*colors[i]))
}

/// Finds and returns the `color_options` value that has the best contrast to
/// `initial_color`: the first of those whose contrast ratio no other exceeds. Without
/// any option, `initial_color` is returned.
pub fn get_best_contrast<'a>(initial_color: &'a RGB, color_options: &'a Vec<&'a RGB>) -> (best: &'a RGB)
    ensures
        color_options.len() == 0 ==> *best == *initial_color,
        color_options.len() > 0 ==> exists|at: int|
            is_best_contrast(
                Rgb::of_bytes(*initial_color),
                colors_of_bytes(color_options@),
                at,
            ) && *best == *color_options[at],
{
    let mut options: Vec<Rgb> = Vec::new();
    let mut at: usize = 0;
    while at < color_options.len()
        invariant
            at <= color_options.len(),
            options@ == colors_of_bytes(color_options@.take(at as int)),
        decreases color_options.len() - at,
    {
        options.push(Rgb::from_bytes(color_options[at]));
        assert(options@ =~= colors_of_bytes(color_options@.take(at + 1)));
        at += 1;
    }
    assert(color_options@.take(color_options.len() as int) =~= color_options@);
    match best_contrast_at(&Rgb::from_bytes(initial_color), options.as_slice()) {
        Some(best) => color_options[best],
        // Only without options, so any color is as good as this one.
        None => initial_color,
    }
}

/// Symmetry: the contrast ratio of two colors, and the levels that they reach, do not
/// depend on the order in which the colors are given.
pub proof fn lemma_contrast_ratio_symmetric(color_1: Rgb, color_2: Rgb)
    ensures
        contrast_ratio(color_1, color_2) == contrast_ratio(color_2, color_1),
        levels_at(contrast_ratio(color_1, color_2)) == levels_at(
            contrast_ratio(color_2, color_1),
        ),
{
}

/// A color has the contrast ratio 1 to itself, and reaches no level with it.
pub proof fn lemma_contrast_ratio_same_color(color: Rgb)
    ensures
        contrast_ratio(color, color) == RATIO_ONE,
        levels_at(contrast_ratio(color, color)) == Seq::<ContrastLevel>::empty(),
{
    let l = luminance(color) + LUMINANCE_OFFSET;
    assert(l * RATIO_ONE / l == RATIO_ONE) by (nonlinear_arith)
        requires
            l > 0,
    ;
}

/// The transformed value of the upper end of the range is 1.
pub proof fn lemma_transformed_value_max()
    ensures
        transformed_value(VALUE_MAX as nat) == LUMINANCE_ONE,
{
    let one = LUMINANCE_ONE as nat;
    let divisor = 1055 * (VALUE_MAX as nat);
    assert(1000 * (VALUE_MAX as nat) + 55 * VALUE_MAX == divisor);
    assert(divisor * one / divisor == one) by (nonlinear_arith)
        requires
            divisor > 0,
    ;
    assert(gamma_base(VALUE_MAX as nat) == one);
    assert(pow5(one) == one * LUMINANCE_ONE_POW4) by {
        assert(pow5(10_000_000) == 10_000_000 * 10_000_000 * 10_000_000 * 10_000_000 * 10_000_000);
    }
    lemma_pow5_increases(one, one + 1);
    assert(pow5(one) < pow5(one + 1)) by {
        assert(pow5(10_000_001) == 10_000_001 * 10_000_001 * 10_000_001 * 10_000_001
            * 10_000_001);
    }
    lemma_fifth_root_unique(one, one);
    assert(fixed_mul(one, one) == one);
}

/// Extremes: black has the contrast ratio 21 to white and reaches every level with it.
pub proof fn lemma_contrast_ratio_black_white(black: Rgb, white: Rgb)
    requires
        black.red@ == 0 && black.green@ == 0 && black.blue@ == 0,
        white.red@ == VALUE_MAX && white.green@ == VALUE_MAX && white.blue@ == VALUE_MAX,
    ensures
        contrast_ratio(black, white) == 21 * RATIO_ONE,
        contrast_ratio(white, black) == 21 * RATIO_ONE,
        levels_at(contrast_ratio(black, white)) == seq![
            ContrastLevel::AA,
            ContrastLevel::AAA,
            ContrastLevel::LargeAA,
            ContrastLevel::LargeAAA,
        ],
{
    lemma_transformed_value_max();
    assert(transformed_value(0) == 0);
    assert(luminance(black) == 0);
    assert(luminance(white) == LUMINANCE_MAX);
}

/// Which ratio reaches which level: 3 the minimum for large text, 4.5 the minimum
/// for text and the enhanced level for large text, 7 the enhanced level for text.
/// So a ratio that reaches a level reaches those below it too.
pub proof fn lemma_levels_at(ratio: nat)
    ensures
        levels_at(ratio).contains(ContrastLevel::LargeAA) <==> ratio >= 3 * RATIO_ONE,
        levels_at(ratio).contains(ContrastLevel::AA) <==> 2 * ratio >= 9 * RATIO_ONE,
        levels_at(ratio).contains(ContrastLevel::LargeAAA) <==> 2 * ratio >= 9 * RATIO_ONE,
        levels_at(ratio).contains(ContrastLevel::AAA) <==> ratio >= 7 * RATIO_ONE,
{
    let levels = levels_at(ratio);
    if ratio >= 7 * RATIO_ONE {
        assert(levels[0] == ContrastLevel::AA);
        assert(levels[1] == ContrastLevel::AAA);
        assert(levels[2] == ContrastLevel::LargeAA);
        assert(levels[3] == ContrastLevel::LargeAAA);
    } else if 2 * ratio >= 9 * RATIO_ONE {
        assert(levels[0] == ContrastLevel::AA);
        assert(levels[1] == ContrastLevel::LargeAA);
        assert(levels[2] == ContrastLevel::LargeAAA);
    } else if ratio >= 3 * RATIO_ONE {
        assert(levels[0] == ContrastLevel::LargeAA);
    }
}

/// The levels that a ratio reaches come in the order of the levels, so none of them
/// comes twice.
pub proof fn lemma_levels_at_ordered(ratio: nat, first: int, second: int)
    requires
        0 <= first < second < levels_at(ratio).len(),
    ensures
        levels_at(ratio)[first].rank() < levels_at(ratio)[second].rank(),
{
}

/// Threshold boundary: two colors whose contrast ratio is 4.5 reach the minimum for
/// text and the enhanced level for large text, and not the enhanced level for text.
pub proof fn lemma_levels_at_text_minimum(color_1: Rgb, color_2: Rgb)
    requires
        2 * contrast_ratio(color_1, color_2) == 9 * RATIO_ONE,
    ensures
        levels_at(contrast_ratio(color_1, color_2)).contains(ContrastLevel::AA),
        levels_at(contrast_ratio(color_1, color_2)).contains(ContrastLevel::LargeAAA),
        !levels_at(contrast_ratio(color_1, color_2)).contains(ContrastLevel::AAA),
{
    lemma_levels_at(contrast_ratio(color_1, color_2));
}

} // verus!

//! The classifier's parameters, and how its guesses are marked.

use crate::single::Single;
use vstd::prelude::*;

verus! {

/// The learned parameters: one weight per embedding dimension, and the bias.
#[derive(Clone, Debug)]
pub struct Weights {
    pub w: Vec<Single>,
    pub b: Single,
}

/// The parameters as mathematical values.
#[verifier::ext_equal]
pub struct WeightsView {
    pub w: Seq<Single>,
    pub b: Single,
}

impl View for Weights {
    type V = WeightsView;

    open spec fn view(&self) -> WeightsView {
        WeightsView { w: self.w@, b: self.b }
    }
}

impl Weights {
    /// Weights that are all zero: the starting point of every refit.
    pub fn zeros(dim: usize) -> (r: Weights)
        ensures
            r@.w == Seq::new(dim as nat, |i: int| Single { bits: 0 }),
            r@.b == (Single { bits: 0 }),
    {
        let mut w: Vec<Single> = Vec::new();
        let mut i: usize = 0;
        while i < dim
            invariant
                i <= dim,
                w@ == Seq::new(i as nat, |i: int| Single { bits: 0 }),
            decreases dim - i,
        {
            w.push(Single::zero());
            i = i + 1;
        }
        Weights { w, b: Single::zero() }
    }
}

/// An exact non-negative rational number.
#[derive(Clone, Copy, Debug, PartialEq, Eq, Structural)]
pub struct Ratio {
    pub num: u128,
    pub den: u128,
}

/// A rational number as mathematical values.
pub struct Fraction {
    pub num: nat,
    pub den: nat,
}

impl View for Ratio {
    type V = Fraction;

    open spec fn view(&self) -> Fraction {
        Fraction { num: self.num as nat, den: self.den as nat }
    }
}

impl Fraction {
    /// A rate: from zero to one.
    pub open spec fn is_rate(self) -> bool {
        self.den > 0 && self.num <= self.den
    }
}

/// How many elements of `s` satisfy `f`.
pub open spec fn count<A>(s: Seq<A>, f: spec_fn(A) -> bool) -> nat
    decreases s.len(),
{
    if s.len() == 0 {
        0
    } else {
        count(s.drop_last(), f) + if f(s.last()) {
            1nat
        } else {
            0nat
        }
    }
}

/// The guess at the threshold of one half is the label.
pub open spec fn agrees(pair: (Single, bool)) -> bool {
    pair.0.reaches_half() == pair.1
}

/// The pairs with this label.
pub open spec fn in_class(label: bool) -> spec_fn((Single, bool)) -> bool {
    |x: (Single, bool)| x.1 == label
}

/// The pairs with this label that are guessed right.
pub open spec fn right_in_class(label: bool) -> spec_fn((Single, bool)) -> bool {
    |x: (Single, bool)| x.1 == label && agrees(x)
}

/// How many of the pairs are guessed right.
pub open spec fn correct(pairs: Seq<(Single, bool)>) -> nat {
    count(pairs, |x: (Single, bool)| agrees(x))
}

/// How many of the pairs have this label.
pub open spec fn labeled(pairs: Seq<(Single, bool)>, label: bool) -> nat {
    count(pairs, in_class(label))
}

/// How many of the pairs with this label are guessed right.
pub open spec fn correct_among(pairs: Seq<(Single, bool)>, label: bool) -> nat {
    count(pairs, right_in_class(label))
}

/// The fraction of the pairs that are guessed right; zero of no pairs.
pub open spec fn accuracy_of(pairs: Seq<(Single, bool)>) -> Fraction {
    if pairs.len() == 0 {
        Fraction { num: 0, den: 1 }
    } else {
        Fraction { num: correct(pairs), den: pairs.len() }
    }
}

/// The mean of the accuracies on the two classes; where only one class
/// occurs, the accuracy on that one; zero of no pairs.
pub open spec fn balanced_accuracy_of(pairs: Seq<(Single, bool)>) -> Fraction {
    let yes = labeled(pairs, true);
    let no = labeled(pairs, false);
    let yes_correct = correct_among(pairs, true);
    let no_correct = correct_among(pairs, false);
    if yes > 0 && no > 0 {
        Fraction { num: yes_correct * no + no_correct * yes, den: 2 * yes * no }
    } else {
        accuracy_of(pairs)
    }
}

/// Fraction of `(probability, label)` pairs where the threshold of one half
/// agrees with the label. Zero for an empty input.
pub fn accuracy(pairs: &[(Single, bool)]) -> (r: Ratio)
    ensures
        r@ == accuracy_of(pairs@),
        r@.is_rate(),
{
    let mut right: usize = 0;
    let mut i: usize = 0;
    assert(pairs@.take(0) =~= Seq::empty());
    while i < pairs.len()
        invariant
            i <= pairs@.len(),
            right <= i,
            right == correct(pairs@.take(i as int)),
        decreases pairs@.len() - i,
    {
        proof {
            assert(pairs@.take(i + 1).drop_last() =~= pairs@.take(i as int));
        }
        if pairs[i].0.at_least_half() == pairs[i].1 {
            right = right + 1;
        }
        i = i + 1;
    }
    assert(pairs@.take(i as int) =~= pairs@);
    if i == 0 {
        Ratio { num: 0, den: 1 }
    } else {
        Ratio { num: right as u128, den: i as u128 }
    }
}

/// The mean of the accuracies on the two classes, so that the rarer class
/// weighs as much as the other. With one class only, the accuracy on it; zero
/// for an empty input.
pub fn balanced_accuracy(pairs: &[(Single, bool)]) -> (r: Ratio)
    ensures
        r@ == balanced_accuracy_of(pairs@),
        r@.is_rate(),
{
    let mut yes: usize = 0;
    let mut yes_right: usize = 0;
    let mut no_right: usize = 0;
    let mut i: usize = 0;
    assert(pairs@.take(0) =~= Seq::empty());
    while i < pairs.len()
        invariant
            i <= pairs@.len(),
            yes_right <= yes <= i,
            no_right <= i - yes,
            yes == labeled(pairs@.take(i as int), true),
            i - yes == labeled(pairs@.take(i as int), false),
            yes_right == correct_among(pairs@.take(i as int), true),
            no_right == correct_among(pairs@.take(i as int), false),
        decreases pairs@.len() - i,
    {
        proof {
            assert(pairs@.take(i + 1).drop_last() =~= pairs@.take(i as int));
        }
        let right: bool = pairs[i].0.at_least_half() == pairs[i].1;
        if pairs[i].1 {
            yes = yes + 1;
            if right {
                yes_right = yes_right + 1;
            }
        } else if right {
            no_right = no_right + 1;
        }
        i = i + 1;
    }
    assert(pairs@.take(i as int) =~= pairs@);
    let no: usize = i - yes;
    if yes > 0 && no > 0 {
        proof {
            lemma_mean_fits(yes, no, yes_right, no_right);
        }
        Ratio {
            num: yes_right as u128 * no as u128 + no_right as u128 * yes as u128,
            den: 2 * (yes as u128) * (no as u128),
        }
    } else {
        accuracy(pairs)
    }
}

/// The mean of two rates over machine-sized counts fits in 128 bits.
proof fn lemma_mean_fits(yes: usize, no: usize, yes_right: usize, no_right: usize)
    requires
        0 < yes,
        0 < no,
        yes + no <= usize::MAX,
        yes_right <= yes,
        no_right <= no,
    ensures
        yes_right * no <= yes * no,
        no_right * yes <= yes * no,
        0 < yes * no,
        2 * yes * no <= u128::MAX,
        2 * (yes * no) == 2 * yes * no,
{
    assert(yes_right * no <= yes * no) by (nonlinear_arith)
        requires
            yes_right <= yes,
            0 < no,
    ;
    assert(no_right * yes <= yes * no) by (nonlinear_arith)
        requires
            no_right <= no,
            0 < yes,
    ;
    let y = yes as int;
    let n = no as int;
    let m = 0x1_0000_0000_0000_0000int;
    assert(0 < y * n && 4 * (y * n) <= m * m) by (nonlinear_arith)
        requires
            0 < y,
            0 < n,
            y + n <= m,
    {
        assert(4 * (y * n) <= (y + n) * (y + n)) by (nonlinear_arith);
        assert((y + n) * (y + n) <= m * m) by (nonlinear_arith)
            requires
                0 < y + n <= m,
        ;
    }
    assert(2 * y * n == 2 * (y * n)) by (nonlinear_arith);
}

/// Counting splits over concatenation.
pub(crate) proof fn lemma_count_concat<A>(s: Seq<A>, t: Seq<A>, f: spec_fn(A) -> bool)
    ensures
        count(s + t, f) == count(s, f) + count(t, f),
    decreases t.len(),
{
    if t.len() == 0 {
        assert(s + t =~= s);
    } else {
        lemma_count_concat(s, t.drop_last(), f);
        assert((s + t).drop_last() =~= s + t.drop_last());
    }
}

/// Taking one element out lowers the count by what that element counts.
proof fn lemma_count_remove<A>(s: Seq<A>, i: int, f: spec_fn(A) -> bool)
    requires
        0 <= i < s.len(),
    ensures
        count(s, f) == count(s.remove(i), f) + if f(s[i]) {
            1nat
        } else {
            0nat
        },
{
    let head = s.take(i);
    let tail = s.skip(i + 1);
    lemma_count_concat(head, tail, f);
    assert(head + tail =~= s.remove(i));
    let upto = s.take(i + 1);
    lemma_count_concat(upto, tail, f);
    assert(upto + tail =~= s);
    assert(upto.drop_last() =~= head);
}

/// Counting does not depend on the order.
proof fn lemma_count_permuted<A>(s: Seq<A>, t: Seq<A>, f: spec_fn(A) -> bool)
    requires
        s.to_multiset() == t.to_multiset(),
    ensures
        s.len() == t.len(),
        count(s, f) == count(t, f),
    decreases s.len(),
{
    broadcast use vstd::seq_lib::group_to_multiset_ensures;

    assert(s.to_multiset().len() == s.len() && t.to_multiset().len() == t.len());
    if s.len() > 0 {
        let last = s.len() - 1;
        assert(s.to_multiset().contains(s[last])) by {
            assert(s.contains(s[last]));
        }
        assert(t.contains(s[last]));
        let i = t.index_of(s[last]);
        assert(s.remove(last).to_multiset() == s.to_multiset().remove(s[last]));
        assert(t.remove(i).to_multiset() == t.to_multiset().remove(t[i]));
        lemma_count_permuted(s.remove(last), t.remove(i), f);
        lemma_count_remove(s, last, f);
        lemma_count_remove(t, i, f);
    }
}

/// A count under a stronger condition is no larger, and no count exceeds the
/// length.
proof fn lemma_count_le<A>(s: Seq<A>, f: spec_fn(A) -> bool, g: spec_fn(A) -> bool)
    requires
        forall|i: int| 0 <= i < s.len() && #[trigger] f(s[i]) ==> g(s[i]),
    ensures
        count(s, f) <= count(s, g) <= s.len(),
    decreases s.len(),
{
    if s.len() > 0 {
        let rest = s.drop_last();
        assert forall|i: int| 0 <= i < rest.len() && #[trigger] f(rest[i]) implies g(rest[i]) by {
            assert(rest[i] == s[i]);
            assert(f(s[i]));
        }
        lemma_count_le(rest, f, g);
        assert(f(s[s.len() - 1]) ==> g(s[s.len() - 1]));
    }
}

/// Every pair has one of the two labels, and the pairs guessed right are those
/// guessed right in the two classes.
proof fn lemma_classes(pairs: Seq<(Single, bool)>)
    ensures
        labeled(pairs, true) + labeled(pairs, false) == pairs.len(),
        correct_among(pairs, true) + correct_among(pairs, false) == correct(pairs),
        correct_among(pairs, true) <= labeled(pairs, true),
        correct_among(pairs, false) <= labeled(pairs, false),
    decreases pairs.len(),
{
    if pairs.len() > 0 {
        lemma_classes(pairs.drop_last());
    }
}

/// Both rates lie between zero and one, whatever the pairs.
pub proof fn law_rates_are_rates(pairs: Seq<(Single, bool)>)
    ensures
        accuracy_of(pairs).is_rate(),
        balanced_accuracy_of(pairs).is_rate(),
{
    lemma_classes(pairs);
    let yes = labeled(pairs, true) as int;
    let no = labeled(pairs, false) as int;
    let a = correct_among(pairs, true) as int;
    let b = correct_among(pairs, false) as int;
    assert(yes > 0 && no > 0 ==> 2 * yes * no > 0 && a * no + b * yes <= 2 * yes * no) by (nonlinear_arith)
        requires
            0 <= a <= yes,
            0 <= b <= no,
    {
        assert(a * no <= yes * no) by (nonlinear_arith)
            requires
                0 <= a <= yes,
                0 <= no,
        ;
        assert(b * yes <= yes * no) by (nonlinear_arith)
            requires
                0 <= b <= no,
                0 <= yes,
        ;
    }
}

/// The order in which the labels arrived does not matter to either rate.
pub proof fn law_rates_ignore_order(a: Seq<(Single, bool)>, b: Seq<(Single, bool)>)
    requires
        a.to_multiset() == b.to_multiset(),
    ensures
        accuracy_of(a) == accuracy_of(b),
        balanced_accuracy_of(a) == balanced_accuracy_of(b),
{
    lemma_count_permuted(a, b, |x: (Single, bool)| agrees(x));
    lemma_class_permuted(a, b, true);
    lemma_class_permuted(a, b, false);
}

/// The counts in one class do not depend on the order.
proof fn lemma_class_permuted(a: Seq<(Single, bool)>, b: Seq<(Single, bool)>, label: bool)
    requires
        a.to_multiset() == b.to_multiset(),
    ensures
        labeled(a, label) == labeled(b, label),
        correct_among(a, label) == correct_among(b, label),
{
    lemma_count_permuted(a, b, in_class(label));
    lemma_count_permuted(a, b, right_in_class(label));
}

/// Guesses that are always right have both rates at one, and guesses that are
/// always wrong have both at zero.
pub proof fn law_rates_at_the_extremes(pairs: Seq<(Single, bool)>)
    requires
        pairs.len() > 0,
    ensures
        (forall|i: int| 0 <= i < pairs.len() ==> agrees(#[trigger] pairs[i])) ==> {
            &&& accuracy_of(pairs).num == accuracy_of(pairs).den
            &&& balanced_accuracy_of(pairs).num == balanced_accuracy_of(pairs).den
        },
        (forall|i: int| 0 <= i < pairs.len() ==> !agrees(#[trigger] pairs[i])) ==> {
            &&& accuracy_of(pairs).num == 0
            &&& balanced_accuracy_of(pairs).num == 0
        },
{
    lemma_classes(pairs);
    let yes = labeled(pairs, true) as int;
    let no = labeled(pairs, false) as int;
    let right = |x: (Single, bool)| agrees(x);
    let any = |x: (Single, bool)| true;
    if forall|i: int| 0 <= i < pairs.len() ==> agrees(#[trigger] pairs[i]) {
        lemma_count_le(pairs, any, right);
        lemma_count_all(pairs);
        assert(yes * no + no * yes == 2 * yes * no) by (nonlinear_arith);
    }
    if forall|i: int| 0 <= i < pairs.len() ==> !agrees(#[trigger] pairs[i]) {
        lemma_count_le(pairs, right, |x: (Single, bool)| false);
        lemma_count_none(pairs);
        assert(0 * no + 0 * yes == 0) by (nonlinear_arith);
    }
}

proof fn lemma_count_all<A>(s: Seq<A>)
    ensures
        count(s, |x: A| true) == s.len(),
    decreases s.len(),
{
    if s.len() > 0 {
        lemma_count_all(s.drop_last());
    }
}

proof fn lemma_count_none<A>(s: Seq<A>)
    ensures
        count(s, |x: A| false) == 0,
    decreases s.len(),
{
    if s.len() > 0 {
        lemma_count_none(s.drop_last());
    }
}

/// Guessing the same label every time earns one half of balanced accuracy as
/// soon as both labels occur, however rare one of them is.
pub proof fn law_constant_guess_is_worth_half(pairs: Seq<(Single, bool)>, guess: bool)
    requires
        forall|i: int| 0 <= i < pairs.len() ==> (#[trigger] pairs[i]).0.reaches_half() == guess,
        labeled(pairs, true) > 0,
        labeled(pairs, false) > 0,
    ensures
        2 * balanced_accuracy_of(pairs).num == balanced_accuracy_of(pairs).den,
{
    lemma_constant_guess(pairs, guess);
    let yes = labeled(pairs, true) as int;
    let no = labeled(pairs, false) as int;
    assert(2 * (yes * no + 0 * yes) == 2 * yes * no) by (nonlinear_arith);
    assert(2 * (0 * no + no * yes) == 2 * yes * no) by (nonlinear_arith);
}

proof fn lemma_constant_guess(pairs: Seq<(Single, bool)>, guess: bool)
    requires
        forall|i: int| 0 <= i < pairs.len() ==> (#[trigger] pairs[i]).0.reaches_half() == guess,
    ensures
        correct_among(pairs, guess) == labeled(pairs, guess),
        correct_among(pairs, !guess) == 0,
    decreases pairs.len(),
{
    if pairs.len() > 0 {
        let rest = pairs.drop_last();
        assert forall|i: int| 0 <= i < rest.len() implies (#[trigger] rest[i]).0.reaches_half() == guess by {
            assert(rest[i] == pairs[i]);
        }
        lemma_constant_guess(rest, guess);
        assert(pairs[pairs.len() - 1].0.reaches_half() == guess);
    }
}

} // verus!

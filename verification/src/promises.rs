//! What the functions of this library give, said of what goes in and what comes
//! out: by characters, bits and indices, and by counting.

use crate::model::accuracy;
use crate::model::accuracy_of;
use crate::model::agrees;
use crate::model::balanced_accuracy;
use crate::model::balanced_accuracy_of;
use crate::model::count;
use crate::model::in_class;
use crate::model::lemma_count_concat;
use crate::model::right_in_class;
use crate::model::Ratio;
use crate::model::Weights;
use crate::prompt::is_cancel;
use crate::prompt::label_name;
use crate::prompt::parse_label;
use crate::prompt::request;
use crate::prompt::says_cancel;
use crate::prompt::says_not;
use crate::prompt::says_trivial;
use crate::prompt::verdict;
use crate::prompt::Request;
use crate::protocol::long_prediction;
use crate::protocol::prediction_of;
use crate::protocol::PredictionView;
use crate::report::both_classes;
use crate::report::fit_pairs;
use crate::report::has_both_classes;
use crate::report::pairs;
use crate::report::pairs_of;
use crate::report::rates;
use crate::report::rates_of;
use crate::report::recent_of;
use crate::report::report;
use crate::report::report_of;
use crate::report::stats;
use crate::report::stats_of;
use crate::report::trivial_rows;
use crate::report::Rates;
use crate::report::RatesView;
use crate::report::Report;
use crate::report::ReportView;
use crate::report::Stats;
use crate::session::prediction;
use crate::session::too_long;
use crate::session::Prediction;
use crate::single::law_half_by_its_bits;
use crate::single::law_hundredths_agree_with_the_verdict;
use crate::single::law_hundredths_by_the_bits;
use crate::single::law_hundredths_in_range;
use crate::single::law_probability_by_its_bits;
use crate::single::Single;
use crate::store::row_views;
use crate::store::Row;
use crate::store::RowView;
use crate::text::ascii_lower;
use crate::text::is_whitespace;
use crate::text::law_trimming;
use crate::text::law_whitespace_by_code_point;
use crate::text::lowered;
use crate::text::trimmed;
use vstd::arithmetic::power2::pow2;
use vstd::prelude::*;

verus! {

/// Whitespace, by code point.
pub open spec fn white(c: char) -> bool {
    let v = c as u32;
    ||| 9 <= v <= 13
    ||| v == 32
    ||| v == 133
    ||| v == 160
    ||| v == 5760
    ||| 8192 <= v <= 8202
    ||| v == 8232
    ||| v == 8233
    ||| v == 8239
    ||| v == 8287
    ||| v == 12288
}

/// `prompt` is the part of `field` between its outer whitespace.
pub open spec fn is_prompt(field: Seq<char>, prompt: Seq<char>) -> bool {
    exists|a: int, b: int| #[trigger] is_middle(field, a, b) && prompt == field.subrange(a, b)
}

/// From `a` to `b`, `field` neither begins nor ends with whitespace, and outside
/// that there is nothing but whitespace.
pub open spec fn is_middle(field: Seq<char>, a: int, b: int) -> bool {
    &&& 0 <= a <= b <= field.len()
    &&& forall|i: int| 0 <= i < a || b <= i < field.len() ==> white(#[trigger] field[i])
    &&& a < b ==> !white(field[a]) && !white(field[b - 1])
}

/// `s` is `word`, which is in lower case, in any case: character by character
/// the same, or the capital of it, thirty-two code points below.
pub open spec fn spells(s: Seq<char>, word: Seq<char>) -> bool {
    &&& s.len() == word.len()
    &&& forall|i: int|
        0 <= i < s.len() ==> #[trigger] s[i] == word[i] || s[i] as u32 + 32 == word[i] as u32
}

/// A reply that drops the pending prompt.
pub open spec fn drops(s: Seq<char>) -> bool {
    spells(s, "c"@) || spells(s, "cancel"@)
}

/// A reply that calls the pending prompt trivial.
pub open spec fn calls_trivial(s: Seq<char>) -> bool {
    spells(s, "t"@) || spells(s, "trivial"@)
}

/// A reply that calls the pending prompt not trivial.
pub open spec fn calls_not(s: Seq<char>) -> bool {
    spells(s, "n"@) || spells(s, "not"@)
}

/// A prompt to be judged: not empty, not a slash command, none of the six words.
pub open spec fn is_request(s: Seq<char>) -> bool {
    &&& s.len() > 0
    &&& s[0] != '/'
    &&& !drops(s)
    &&& !calls_trivial(s)
    &&& !calls_not(s)
}

/// The number with these bits is one half or more.
pub open spec fn half_or_more(p: Single) -> bool {
    0x3f00_0000 <= p.bits <= 0x7f80_0000
}

/// The printed word for a label.
pub open spec fn word_for(trivial: bool) -> Seq<char> {
    if trivial {
        "TRIVIAL"@
    } else {
        "NOT"@
    }
}

/// `k` hundredths is what `p` comes nearest to, of two as near the larger. The
/// value of `p` is read off its bits: `f` times 2^-149 where the exponent `e` is
/// zero, and otherwise `f + 2^23` times 2^(e - 150).
pub open spec fn comes_nearest(p: Single, k: int) -> bool {
    let e = p.bits as int / 0x80_0000;
    let f = p.bits as int % 0x80_0000;
    let units = if e == 0 {
        f
    } else {
        (f + 0x80_0000) * pow2((e - 1) as nat)
    };
    -pow2(149) <= 200 * units - 2 * k * pow2(149) < pow2(149)
}

/// The indices below `n` of which `f` holds.
pub open spec fn indices(n: nat, f: spec_fn(int) -> bool) -> Set<int> {
    Set::new(|i: int| 0 <= i < n && f(i))
}

/// How many indices below `n` there are of which `f` holds.
pub open spec fn how_many(n: nat, f: spec_fn(int) -> bool) -> nat {
    indices(n, f).len()
}

/// Counting the elements of a sequence is counting its indices.
proof fn lemma_how_many<A>(s: Seq<A>, g: spec_fn(A) -> bool, f: spec_fn(int) -> bool)
    requires
        forall|i: int| 0 <= i < s.len() ==> #[trigger] f(i) == g(s[i]),
    ensures
        indices(s.len(), f).finite(),
        count(s, g) == how_many(s.len(), f),
    decreases s.len(),
{
    if s.len() == 0 {
        assert(indices(0, f) =~= Set::empty());
    } else {
        let n = (s.len() - 1) as nat;
        let rest = s.drop_last();
        assert forall|i: int| 0 <= i < rest.len() implies #[trigger] f(i) == g(rest[i]) by {
            assert(rest[i] == s[i]);
        }
        lemma_how_many(rest, g, f);
        assert(f(n as int) == g(s.last()));
        if f(n as int) {
            assert(indices(s.len(), f) =~= indices(n, f).insert(n as int));
        } else {
            assert(indices(s.len(), f) =~= indices(n, f));
        }
    }
}

/// A word in lower case is spelled by what its lower-case form is.
proof fn lemma_spells(s: Seq<char>, word: Seq<char>)
    requires
        forall|i: int| 0 <= i < word.len() ==> 'a' <= #[trigger] word[i] <= 'z',
    ensures
        spells(s, word) <==> lowered(s) == word,
{
    assert(lowered(s).len() == s.len());
    assert forall|i: int| 0 <= i < s.len() implies #[trigger] lowered(s)[i] == ascii_lower(s[i]) by {
    }
    if spells(s, word) {
        assert forall|i: int| 0 <= i < s.len() implies #[trigger] lowered(s)[i] == word[i] by {
            let c = s[i];
            assert('a' <= word[i] <= 'z');
            assert(c == word[i] || c as u32 + 32 == word[i] as u32);
        }
        assert(lowered(s) =~= word);
    }
    if lowered(s) == word {
        assert forall|i: int| 0 <= i < s.len() implies #[trigger] s[i] == word[i] || s[i] as u32 + 32
            == word[i] as u32 by {
            assert(lowered(s)[i] == word[i]);
        }
    }
}

/// The six words are spelled as their lower-case forms say.
pub(crate) proof fn lemma_words(s: Seq<char>)
    ensures
        drops(s) <==> says_cancel(s),
        calls_trivial(s) <==> says_trivial(s),
        calls_not(s) <==> says_not(s),
        drops(s) ==> !calls_trivial(s) && !calls_not(s),
        calls_trivial(s) ==> !calls_not(s),
        drops(s) || calls_trivial(s) || calls_not(s) ==> 0 < s.len() <= 7 && s[0] != '/',
{
    reveal_strlit("t");
    reveal_strlit("trivial");
    reveal_strlit("n");
    reveal_strlit("not");
    reveal_strlit("c");
    reveal_strlit("cancel");
    lemma_spells(s, "t"@);
    lemma_spells(s, "trivial"@);
    lemma_spells(s, "n"@);
    lemma_spells(s, "not"@);
    lemma_spells(s, "c"@);
    lemma_spells(s, "cancel"@);
    if s.len() > 0 {
        assert(lowered(s)[0] == ascii_lower(s[0]));
    }
}

/// What a prompt asks for: nothing where it is empty or begins with a slash, the
/// dropping or the label where it is one of the six words in any case, and
/// otherwise a score, but for those of more than 300 characters.
pub proof fn law_request(prompt: &str, r: Request)
    requires
        call_ensures(request, (prompt,), r),
    ensures
        r == Request::Pass <==> prompt@.len() == 0 || prompt@[0] == '/',
        r == Request::Cancel <==> drops(prompt@),
        r == (Request::Label { trivial: true }) <==> calls_trivial(prompt@),
        r == (Request::Label { trivial: false }) <==> calls_not(prompt@),
        r is Long <==> is_request(prompt@) && prompt@.len() > 300,
        r is Score <==> is_request(prompt@) && prompt@.len() <= 300,
        r matches Request::Long { chars } ==> chars == prompt@.len(),
        r matches Request::Score { chars } ==> chars == prompt@.len(),
{
    lemma_words(prompt@);
}

/// Which replies are labels: the four words in any case, and nothing else.
pub proof fn law_parse_label(prompt: &str, r: Option<bool>)
    requires
        call_ensures(parse_label, (prompt,), r),
    ensures
        r == Some(true) <==> calls_trivial(prompt@),
        r == Some(false) <==> calls_not(prompt@),
{
    lemma_words(prompt@);
}

/// Which replies cancel: the two words in any case, and nothing else.
pub proof fn law_is_cancel(prompt: &str, r: bool)
    requires
        call_ensures(is_cancel, (prompt,), r),
    ensures
        r <==> drops(prompt@),
{
    lemma_words(prompt@);
}

/// The printed words for the two labels.
pub proof fn law_label_name(trivial: bool, r: &'static str)
    requires
        call_ensures(label_name, (trivial,), r),
    ensures
        r@ == if trivial {
            "TRIVIAL"@
        } else {
            "NOT"@
        },
{
}

/// The verdict on a probability is trivial from one half on.
pub proof fn law_verdict(p: Single, r: &'static str)
    requires
        call_ensures(verdict, (p,), r),
    ensures
        r@ == if 0x3f00_0000 <= p.bits <= 0x7f80_0000 {
            "TRIVIAL"@
        } else {
            "NOT"@
        },
{
    law_half_by_its_bits(p);
}

/// The threshold of one half, by the bits.
pub proof fn law_at_least_half(p: Single, r: bool)
    requires
        call_ensures(Single::at_least_half, (p,), r),
    ensures
        r <==> half_or_more(p),
{
    law_half_by_its_bits(p);
}

/// The number zero is all zero bits.
pub proof fn law_zero(r: Single)
    requires
        call_ensures(Single::zero, (), r),
    ensures
        r.bits == 0,
{
}

/// Hundredths are given of exactly the numbers from zero to one, and are the
/// nearest ones; from one half on they are fifty or more, below it fifty or less.
pub proof fn law_hundredths(p: Single, r: Option<u64>)
    requires
        call_ensures(Single::hundredths, (p,), r),
    ensures
        r is Some <==> p.bits <= 0x3f80_0000,
        r matches Some(k) ==> comes_nearest(p, k as int),
        r matches Some(k) ==> half_or_more(p) ==> 50 <= k <= 100,
        r matches Some(k) ==> !half_or_more(p) ==> k <= 50,
{
    law_probability_by_its_bits(p);
    law_half_by_its_bits(p);
    if let Some(k) = r {
        law_hundredths_by_the_bits(p, k as int);
        law_hundredths_agree_with_the_verdict(p);
    }
}

/// What is told of a scored prompt: the verdict, the probability, the nearest
/// hundredths of it on either side of one half, and the length. It is not told
/// to be long.
pub proof fn law_prediction(p: Single, chars: usize, r: Prediction)
    requires
        call_ensures(prediction, (p, chars), r),
    ensures
        r.verdict@ == word_for(half_or_more(p)),
        r.p == p,
        r.chars == chars,
        !r.long,
        r.hundredths is Some <==> p.bits <= 0x3f80_0000,
        r.hundredths matches Some(k) ==> comes_nearest(p, k as int),
        r.hundredths matches Some(k) ==> r.verdict@ == "TRIVIAL"@ ==> 50 <= k <= 100,
        r.hundredths matches Some(k) ==> r.verdict@ == "NOT"@ ==> k <= 50,
{
    assert("TRIVIAL"@ != "NOT"@) by {
        reveal_strlit("TRIVIAL");
        reveal_strlit("NOT");
        assert("TRIVIAL"@.len() != "NOT"@.len());
    }
    lemma_prediction(p, chars);
    assert(r@ == prediction_of(p, chars));
}

/// What is told of a prompt that is too long: it is not trivial, at zero.
pub proof fn law_too_long(chars: usize, r: Prediction)
    requires
        call_ensures(too_long, (chars,), r),
    ensures
        r.verdict@ == "NOT"@,
        r.p.bits == 0,
        r.hundredths == Some(0u64),
        r.chars == chars,
        r.long,
{
    assert(r@ == long_prediction(chars));
}

/// What is told of a scored prompt, as mathematical values.
pub open spec fn tells_score(told: PredictionView, p: Single, chars: int) -> bool {
    &&& told.verdict == word_for(half_or_more(p))
    &&& told.p == p
    &&& told.chars == chars
    &&& !told.long
    &&& told.hundredths is Some <==> p.bits <= 0x3f80_0000
    &&& told.hundredths matches Some(k) ==> {
        &&& comes_nearest(p, k)
        &&& half_or_more(p) ==> 50 <= k <= 100
        &&& !half_or_more(p) ==> 0 <= k <= 50
    }
}

pub(crate) proof fn lemma_prediction(p: Single, chars: usize)
    ensures
        tells_score(prediction_of(p, chars), p, chars as int),
{
    law_probability_by_its_bits(p);
    law_half_by_its_bits(p);
    if p.is_probability() {
        law_hundredths_by_the_bits(p, p.nearest_hundredth());
        law_hundredths_agree_with_the_verdict(p);
        law_hundredths_in_range(p);
    }
}

/// The indices where the threshold of one half agrees with the label.
pub open spec fn right_at(p: spec_fn(int) -> Single, y: spec_fn(int) -> bool) -> spec_fn(int) -> bool {
    |i: int| half_or_more(p(i)) == y(i)
}

/// The indices with this label.
pub open spec fn labeled_at(y: spec_fn(int) -> bool, label: bool) -> spec_fn(int) -> bool {
    |i: int| y(i) == label
}

/// The indices with this label where the threshold agrees with it.
pub open spec fn right_among_at(
    p: spec_fn(int) -> Single,
    y: spec_fn(int) -> bool,
    label: bool,
) -> spec_fn(int) -> bool {
    |i: int| y(i) == label && half_or_more(p(i)) == label
}

/// `num / den` is the fraction of the `n` guesses that are right, zero of none.
pub open spec fn is_accuracy(
    num: int,
    den: int,
    n: nat,
    p: spec_fn(int) -> Single,
    y: spec_fn(int) -> bool,
) -> bool {
    if n == 0 {
        num == 0 && den == 1
    } else {
        num == how_many(n, right_at(p, y)) && den == n
    }
}

/// `num / den` is the mean of the fractions of right guesses among the trivial
/// and among the others; where one of the two does not occur, the fraction of
/// right guesses.
pub open spec fn is_balanced_accuracy(
    num: int,
    den: int,
    n: nat,
    p: spec_fn(int) -> Single,
    y: spec_fn(int) -> bool,
) -> bool {
    let yes = how_many(n, labeled_at(y, true)) as int;
    let no = how_many(n, labeled_at(y, false)) as int;
    if yes > 0 && no > 0 {
        &&& num == how_many(n, right_among_at(p, y, true)) * no + how_many(
            n,
            right_among_at(p, y, false),
        ) * yes
        &&& den == 2 * yes * no
    } else {
        is_accuracy(num, den, n, p, y)
    }
}

/// Both rates of `n` guesses, by the probability and the label of each.
pub open spec fn are_rates(
    r: RatesView,
    n: nat,
    p: spec_fn(int) -> Single,
    y: spec_fn(int) -> bool,
) -> bool {
    &&& is_accuracy(r.accuracy.num as int, r.accuracy.den as int, n, p, y)
    &&& is_balanced_accuracy(
        r.balanced_accuracy.num as int,
        r.balanced_accuracy.den as int,
        n,
        p,
        y,
    )
}

pub(crate) proof fn lemma_rates(pairs: Seq<(Single, bool)>, p: spec_fn(int) -> Single, y: spec_fn(int) -> bool)
    requires
        forall|i: int| 0 <= i < pairs.len() ==> #[trigger] pairs[i] == (p(i), y(i)),
    ensures
        are_rates(rates_of(pairs), pairs.len(), p, y),
{
    assert forall|i: int| 0 <= i < pairs.len() implies agrees(#[trigger] pairs[i]) == (half_or_more(
        p(i),
    ) == y(i)) by {
        law_half_by_its_bits(pairs[i].0);
    }
    lemma_how_many(pairs, |x: (Single, bool)| agrees(x), right_at(p, y));
    lemma_how_many(pairs, in_class(true), labeled_at(y, true));
    lemma_how_many(pairs, in_class(false), labeled_at(y, false));
    lemma_how_many(pairs, right_in_class(true), right_among_at(p, y, true));
    lemma_how_many(pairs, right_in_class(false), right_among_at(p, y, false));
}

/// The first of each pair.
pub open spec fn first_at(pairs: Seq<(Single, bool)>) -> spec_fn(int) -> Single {
    |i: int| pairs[i].0
}

/// The second of each pair.
pub open spec fn second_at(pairs: Seq<(Single, bool)>) -> spec_fn(int) -> bool {
    |i: int| pairs[i].1
}

/// The accuracy counts the indices at which the guess is right.
pub proof fn law_accuracy(pairs: &[(Single, bool)], r: Ratio)
    requires
        call_ensures(accuracy, (pairs,), r),
    ensures
        is_accuracy(
            r.num as int,
            r.den as int,
            pairs@.len(),
            first_at(pairs@),
            second_at(pairs@),
        ),
{
    lemma_rates(pairs@, first_at(pairs@), second_at(pairs@));
    assert(r@ == accuracy_of(pairs@));
}

/// The balanced accuracy counts the indices at which the guess is right among
/// those of each label.
pub proof fn law_balanced_accuracy(pairs: &[(Single, bool)], r: Ratio)
    requires
        call_ensures(balanced_accuracy, (pairs,), r),
    ensures
        is_balanced_accuracy(
            r.num as int,
            r.den as int,
            pairs@.len(),
            first_at(pairs@),
            second_at(pairs@),
        ),
{
    lemma_rates(pairs@, first_at(pairs@), second_at(pairs@));
    assert(r@ == balanced_accuracy_of(pairs@));
}

/// The fields of both rates are those two.
pub open spec fn hold_rates(
    r: Rates,
    n: nat,
    p: spec_fn(int) -> Single,
    y: spec_fn(int) -> bool,
) -> bool {
    &&& is_accuracy(r.accuracy.num as int, r.accuracy.den as int, n, p, y)
    &&& is_balanced_accuracy(
        r.balanced_accuracy.num as int,
        r.balanced_accuracy.den as int,
        n,
        p,
        y,
    )
}

/// Both rates, over all pairs.
pub proof fn law_rates(all: &[(Single, bool)], r: Rates)
    requires
        call_ensures(rates, (all,), r),
    ensures
        hold_rates(r, all@.len(), first_at(all@), second_at(all@)),
{
    lemma_rates(all@, first_at(all@), second_at(all@));
    assert(r@ == rates_of(all@));
}

/// Weights of zero: as many as asked for, all of them and the bias zero.
pub proof fn law_zeros(dim: usize, r: Weights)
    requires
        call_ensures(Weights::zeros, (dim,), r),
    ensures
        r.w@.len() == dim,
        forall|i: int| 0 <= i < dim ==> (#[trigger] r.w@[i]).bits == 0,
        r.b.bits == 0,
{
    let zeros = Seq::new(dim as nat, |i: int| Single { bits: 0 });
    assert(r@.w == zeros);
    assert(r.w@ == zeros);
}

/// The probability of the row `first + i` when it arrived.
pub open spec fn p_from(rows: Seq<RowView>, first: int) -> spec_fn(int) -> Single {
    |i: int| rows[first + i].scored.p
}

/// The label of the row `first + i`.
pub open spec fn label_from(rows: Seq<RowView>, first: int) -> spec_fn(int) -> bool {
    |i: int| rows[first + i].label
}

/// A report on `n` rows tells how many there are, how many of them are labeled
/// trivial, and the rates over exactly the rows from `n - min(n, 50)` up to `n`.
pub open spec fn reports(r: ReportView, rows: Seq<RowView>) -> bool {
    let n = rows.len();
    let w: nat = if n < 50 {
        n
    } else {
        50
    };
    &&& r.rows == n
    &&& r.trivial_rows == how_many(n, label_from(rows, 0))
    &&& r.recent == w
    &&& are_rates(r.rates, w, p_from(rows, n - w), label_from(rows, n - w))
}

pub(crate) proof fn lemma_report(rows: Seq<RowView>)
    ensures
        reports(report_of(rows), rows),
{
    let n = rows.len();
    let w: nat = if n < 50 {
        n
    } else {
        50
    };
    let recent = pairs_of(recent_of(rows));
    assert(recent.len() == w);
    assert forall|i: int| 0 <= i < w implies #[trigger] recent[i] == (
        p_from(rows, n - w)(i),
        label_from(rows, n - w)(i),
    ) by {
        assert(recent_of(rows)[i] == rows[n - w + i]);
    }
    lemma_rates(recent, p_from(rows, n - w), label_from(rows, n - w));
    lemma_how_many(rows, |r: RowView| r.label, label_from(rows, 0));
}

/// The probability that the row `first + i` got when it arrived.
pub open spec fn held_p(rows: Seq<Row>, first: int) -> spec_fn(int) -> Single {
    |i: int| rows[first + i].scored.p
}

/// The label that the row `first + i` holds.
pub open spec fn held_label(rows: Seq<Row>, first: int) -> spec_fn(int) -> bool {
    |i: int| rows[first + i].label
}

/// The fields of a report on `n` rows: how many there are, how many of them are
/// labeled trivial, and the rates over exactly the rows with an index from
/// `n - min(n, 50)` up to `n`, so that the last row is always the last of those.
pub open spec fn holds_report(r: Report, rows: Seq<Row>) -> bool {
    let n = rows.len();
    let w: nat = if n < 50 {
        n
    } else {
        50
    };
    &&& r.rows == n
    &&& r.trivial_rows == how_many(n, held_label(rows, 0))
    &&& r.recent == w
    &&& hold_rates(r.rates, w, held_p(rows, n - w), held_label(rows, n - w))
}

pub(crate) proof fn lemma_holds_report(r: Report, rows: Seq<Row>)
    requires
        r@ == report_of(row_views(rows)),
    ensures
        holds_report(r, rows),
{
    let n = rows.len();
    let w: nat = if n < 50 {
        n
    } else {
        50
    };
    let views = row_views(rows);
    let recent = pairs_of(recent_of(views));
    assert(recent.len() == w);
    let p = held_p(rows, n - w);
    let y = held_label(rows, n - w);
    assert forall|i: int| 0 <= i < w implies #[trigger] recent[i] == (p(i), y(i)) by {
        assert(recent_of(views)[i] == views[n - w + i]);
    }
    lemma_rates(recent, p, y);
    lemma_how_many(views, |r: RowView| r.label, held_label(rows, 0));
}

/// A report counts all rows, and rates the last fifty of them.
pub proof fn law_report(rows: &Vec<Row>, r: Report)
    requires
        call_ensures(report, (rows,), r),
    ensures
        holds_report(r, rows@),
{
    lemma_holds_report(r, rows@);
}

/// The score at each index.
pub open spec fn score_at(scores: Seq<Single>) -> spec_fn(int) -> Single {
    |i: int| scores[i]
}

/// The statistics hold the report, the rates over all rows by the probability
/// that each got when it arrived, and the rates over all rows by the score that
/// each gets now. Of `n` rows the last two have `n` as the denominator of the
/// accuracy, and count every index below `n`.
pub proof fn law_stats(rows: &Vec<Row>, scores: &Vec<Single>, r: Stats)
    requires
        scores@.len() == rows@.len(),
        call_ensures(stats, (rows, scores), r),
    ensures
        holds_report(r.report, rows@),
        hold_rates(r.overall, rows@.len(), held_p(rows@, 0), held_label(rows@, 0)),
        hold_rates(r.fit, rows@.len(), score_at(scores@), held_label(rows@, 0)),
{
    let views = row_views(rows@);
    assert(r@ == stats_of(views, scores@));
    lemma_holds_report(r.report, rows@);
    lemma_rates(pairs_of(views), held_p(rows@, 0), held_label(rows@, 0));
    lemma_rates(fit_pairs(views, scores@), score_at(scores@), held_label(rows@, 0));
}

/// The rows labeled trivial are counted by their indices.
pub proof fn law_trivial_rows(rows: &Vec<Row>, r: usize)
    requires
        call_ensures(trivial_rows, (rows,), r),
    ensures
        r == how_many(rows@.len(), held_label(rows@, 0)),
{
    lemma_how_many(row_views(rows@), |r: RowView| r.label, held_label(rows@, 0));
}

pub(crate) proof fn lemma_both(rows: Seq<Row>)
    ensures
        both_classes(row_views(rows)) <==> (exists|i: int|
            0 <= i < rows.len() && (#[trigger] rows[i]).label) && (exists|i: int|
            0 <= i < rows.len() && !(#[trigger] rows[i]).label),
{
    let views = row_views(rows);
    if both_classes(views) {
        let i = choose|i: int| 0 <= i < views.len() && (#[trigger] views[i]).label;
        let j = choose|j: int| 0 <= j < views.len() && !(#[trigger] views[j]).label;
        assert(rows[i].label && !rows[j].label);
    }
    if (exists|i: int| 0 <= i < rows.len() && (#[trigger] rows[i]).label) && (exists|i: int|
        0 <= i < rows.len() && !(#[trigger] rows[i]).label) {
        let i = choose|i: int| 0 <= i < rows.len() && (#[trigger] rows[i]).label;
        let j = choose|j: int| 0 <= j < rows.len() && !(#[trigger] rows[j]).label;
        assert(views[i].label && !views[j].label);
    }
}

/// Both labels occur where one row has the one and one row has the other.
pub proof fn law_has_both_classes(rows: &Vec<Row>, r: bool)
    requires
        call_ensures(has_both_classes, (rows,), r),
    ensures
        r <==> (exists|i: int| 0 <= i < rows@.len() && (#[trigger] rows@[i]).label) && (exists|i: int|
            0 <= i < rows@.len() && !(#[trigger] rows@[i]).label),
{
    lemma_both(rows@);
}

/// One pair for each row, in its place: the probability and the label.
pub proof fn law_pairs(rows: &Vec<Row>, r: Vec<(Single, bool)>)
    requires
        call_ensures(pairs, (rows,), r),
    ensures
        r@.len() == rows@.len(),
        forall|i: int|
            0 <= i < rows@.len() ==> #[trigger] r@[i] == (rows@[i].scored.p, rows@[i].label),
{
}

/// There is one part between the outer whitespace, and trimming gives it.
pub(crate) proof fn lemma_prompt(field: Seq<char>, prompt: Seq<char>)
    ensures
        is_prompt(field, prompt) <==> prompt == trimmed(field),
{
    law_trimming(field);
    let (a, b) = choose|a: int, b: int|
        {
            &&& 0 <= a <= b <= field.len()
            &&& trimmed(field) == #[trigger] field.subrange(a, b)
            &&& forall|i: int|
                0 <= i < a || b <= i < field.len() ==> is_whitespace(#[trigger] field[i])
            &&& a < b ==> !is_whitespace(field[a]) && !is_whitespace(field[b - 1])
        };
    assert(0 <= a <= b <= field.len());
    assert forall|i: int| 0 <= i < a || b <= i < field.len() implies white(#[trigger] field[i]) by {
        assert(is_whitespace(field[i]));
    }
    if a < b {
        law_whitespace_by_code_point(field[a]);
        law_whitespace_by_code_point(field[b - 1]);
        assert(!is_whitespace(field[a]));
    }
    assert(is_middle(field, a, b));
    if is_prompt(field, prompt) {
        let (c, d) = choose|c: int, d: int| #[trigger]
            is_middle(field, c, d) && prompt == field.subrange(c, d);
        if a < b {
            assert(!white(field[a]) && !white(field[b - 1]));
        }
        if c < d {
            assert(!white(field[c]) && !white(field[d - 1]));
        }
        assert(field.subrange(a, b) =~= field.subrange(c, d));
    }
}

/// The recent elements are the last fifty, or all where there are fewer, and the
/// newest is the last of them.
pub proof fn law_recent_window<A>(s: Seq<A>)
    ensures
        ({
            let n = s.len() as int;
            let w: int = if n < 50 {
                n
            } else {
                50
            };
            &&& recent_of(s).len() == w
            &&& forall|j: int| 0 <= j < w ==> #[trigger] recent_of(s)[j] == s[n - w + j]
            &&& n > 0 ==> recent_of(s)[w - 1] == s[n - 1]
        }),
{
}

/// One for a row whose label the threshold agreed with, zero for another.
pub open spec fn mark(row: Row) -> int {
    if half_or_more(row.scored.p) == row.label {
        1
    } else {
        0
    }
}

/// One more row moves the report on by that row: it is counted, its mark is added
/// to the right guesses, and from fifty rows on the mark of the row that falls out
/// of the last fifty is taken off.
pub proof fn law_one_more_row(rows: &Vec<Row>, more: &Vec<Row>, before: Report, after: Report)
    requires
        call_ensures(report, (rows,), before),
        call_ensures(report, (more,), after),
        more@.len() == rows@.len() + 1,
        forall|i: int| 0 <= i < rows@.len() ==> #[trigger] more@[i] == rows@[i],
    ensures
        ({
            let n = rows@.len() as int;
            let gone = if n < 50 {
                0
            } else {
                mark(rows@[n - 50])
            };
            &&& after.rows == before.rows + 1
            &&& after.trivial_rows == before.trivial_rows + if more@[n].label {
                1int
            } else {
                0int
            }
            &&& after.rates.accuracy.num == before.rates.accuracy.num + mark(more@[n]) - gone
            &&& after.rates.accuracy.den == if n < 50 {
                n + 1
            } else {
                50
            }
        }),
{
    let n = rows@.len() as int;
    let s = row_views(rows@);
    let t = row_views(more@);
    let right = |x: (Single, bool)| agrees(x);
    let a = pairs_of(recent_of(s));
    let b = pairs_of(recent_of(t));
    let x = (more@[n].scored.p, more@[n].label);
    assert(t.drop_last() =~= s);
    assert(t.last() == more@[n]@);
    law_half_by_its_bits(x.0);
    if n < 50 {
        assert(b.drop_last() =~= a);
        assert(b.last() == x);
    } else {
        let y = (rows@[n - 50].scored.p, rows@[n - 50].label);
        law_half_by_its_bits(y.0);
        let kept = a.drop_first();
        assert(a =~= seq![y] + kept);
        lemma_count_concat(seq![y], kept, right);
        assert(seq![y].drop_last() =~= Seq::empty());
        assert(count(seq![y].drop_last(), right) == 0);
        assert(b.drop_last() =~= kept);
        assert(b.last() == x);
    }
    assert(before@ == report_of(s));
    assert(after@ == report_of(t));
}

} // verus!

//! Dice-roll expressions: the textual grammar `<N>d<M>[ * <C>]` /
//! `(<N>d<M> + <K>) * <C>`, its parser, and its uniform-random evaluator.

use vstd::prelude::*;
use vstd::string::*;
use vstd::arithmetic::mul::lemma_mul_inequality;

use crate::decimal::{
    dec_digits,
    digit_char,
    digit_val,
    is_digit,
    lemma_dec_digits_are_digits,
    lemma_dec_digits_injective,
    lemma_dec_digits_len,
    lemma_dec_digits_no_leading_zero,
    lemma_digit_char_val,
};
use crate::random::RandomSource;

verus! {

/// A malformed or unevaluable price formula; recoverable, the caller
/// treats it as "no price available".
#[derive(Debug, Clone, Copy, PartialEq, Eq, Structural)]
pub enum PricingError {
    Malformed,
    Unevaluable,
}

/// A dice-roll expression: `count` dice with `sides` sides each, an
/// optional flat bonus, and an optional multiplier. The grammar only
/// allows a bonus inside a multiplied, parenthesized form.
#[derive(Debug, Clone, Copy, PartialEq, Eq)]
pub struct DiceExpr {
    pub count: u64,
    pub sides: u64,
    pub bonus: Option<u64>,
    pub multiplier: Option<u64>,
}

impl DiceExpr {
    /// Well-formed: at least one die with at least one side, a positive
    /// multiplier where one is present, and a bonus only under a multiplier.
    pub open spec fn wf(self) -> bool {
        &&& self.count >= 1
        &&& self.sides >= 1
        &&& (self.multiplier matches Some(c) ==> c >= 1)
        &&& (self.bonus is Some ==> self.multiplier is Some)
    }

    /// The flat bonus, zero when absent.
    pub open spec fn spec_bonus(self) -> int {
        match self.bonus {
            Some(k) => k as int,
            None => 0,
        }
    }

    /// The multiplier, one when absent.
    pub open spec fn spec_multiplier(self) -> int {
        match self.multiplier {
            Some(c) => c as int,
            None => 1,
        }
    }

    /// The least value an evaluation can yield: every die shows one.
    pub open spec fn spec_min_value(self) -> int {
        (self.count as int + self.spec_bonus()) * self.spec_multiplier()
    }

    /// The greatest value an evaluation can yield: every die shows `sides`.
    pub open spec fn spec_max_value(self) -> int {
        (self.count as int * self.sides as int + self.spec_bonus()) * self.spec_multiplier()
    }
}

/// The canonical textual form of an expression.
pub open spec fn render_expr(e: DiceExpr) -> Seq<char> {
    let base = dec_digits(e.count as nat) + "d"@ + dec_digits(e.sides as nat);
    match (e.bonus, e.multiplier) {
        (Option::None, Option::None) => base,
        (Option::None, Option::Some(c)) => base + " * "@ + dec_digits(c as nat),
        (Option::Some(k), Option::Some(c)) => "("@ + base + " + "@ + dec_digits(k as nat) + ") * "@
            + dec_digits(c as nat),
        (Option::Some(_), Option::None) => base,
    }
}

/// How many consecutive digit characters start at `from`.
pub open spec fn digit_run_len(s: Seq<char>, from: int) -> int
    decreases s.len() - from,
{
    if from < 0 || from >= s.len() {
        0
    } else if !is_digit(s[from]) {
        0
    } else {
        1 + digit_run_len(s, from + 1)
    }
}

/// The value of the digits `s[from..to]`, most significant first.
pub open spec fn value_of_run(s: Seq<char>, from: int, to: int) -> int
    decreases to - from,
{
    if from >= to {
        0
    } else {
        value_of_run(s, from, to - 1) * 10 + digit_val(s[to - 1])
    }
}

/// Where the digit run starting at `from` ends.
pub open spec fn num_end(s: Seq<char>, from: int) -> int {
    from + digit_run_len(s, from)
}

/// The value of the digit run starting at `from`.
pub open spec fn num_val(s: Seq<char>, from: int) -> int {
    value_of_run(s, from, num_end(s, from))
}

/// A number in canonical decimal: a nonempty digit run, no leading zero,
/// and a value that fits the expression's fields.
pub open spec fn valid_number(s: Seq<char>, from: int) -> bool {
    &&& digit_run_len(s, from) >= 1
    &&& (digit_run_len(s, from) > 1 ==> s[from] != '0')
    &&& num_val(s, from) <= u64::MAX as int
}

/// The characters of `sep` stand at position `at` of `s`.
pub open spec fn sep_at(s: Seq<char>, at: int, sep: Seq<char>) -> bool {
    &&& 0 <= at
    &&& at + sep.len() <= s.len()
    &&& forall|k: int| 0 <= k < sep.len() ==> s[at + k] == sep[k]
}

pub open spec fn parse_plain(s: Seq<char>) -> Option<DiceExpr> {
    if !valid_number(s, 0) {
        None
    } else {
        let n = num_val(s, 0);
        let i1 = num_end(s, 0);
        if !(i1 < s.len() && s[i1] == 'd' && valid_number(s, i1 + 1)) {
            None
        } else {
            let m = num_val(s, i1 + 1);
            let i2 = num_end(s, i1 + 1);
            if n < 1 || m < 1 {
                None
            } else if i2 == s.len() {
                Some(
                    DiceExpr {
                        count: n as u64,
                        sides: m as u64,
                        bonus: None,
                        multiplier: None,
                    },
                )
            } else if sep_at(s, i2, " * "@) && valid_number(s, i2 + 3) && num_end(s, i2 + 3)
                == s.len() && num_val(s, i2 + 3) >= 1 {
                Some(
                    DiceExpr {
                        count: n as u64,
                        sides: m as u64,
                        bonus: None,
                        multiplier: Some(num_val(s, i2 + 3) as u64),
                    },
                )
            } else {
                None
            }
        }
    }
}

pub open spec fn parse_paren(s: Seq<char>) -> Option<DiceExpr> {
    if !valid_number(s, 1) {
        None
    } else {
        let n = num_val(s, 1);
        let i1 = num_end(s, 1);
        if !(i1 < s.len() && s[i1] == 'd' && valid_number(s, i1 + 1)) {
            None
        } else {
            let m = num_val(s, i1 + 1);
            let i2 = num_end(s, i1 + 1);
            if !(sep_at(s, i2, " + "@) && valid_number(s, i2 + 3)) {
                None
            } else {
                let k = num_val(s, i2 + 3);
                let i3 = num_end(s, i2 + 3);
                if !(sep_at(s, i3, ") * "@) && valid_number(s, i3 + 4) && num_end(s, i3 + 4)
                    == s.len() && num_val(s, i3 + 4) >= 1) {
                    None
                } else if n < 1 || m < 1 {
                    None
                } else {
                    Some(
                        DiceExpr {
                            count: n as u64,
                            sides: m as u64,
                            bonus: Some(k as u64),
                            multiplier: Some(num_val(s, i3 + 4) as u64),
                        },
                    )
                }
            }
        }
    }
}

/// What the grammar accepts: the parenthesized form when the string opens
/// with `(`, the plain form otherwise.
pub open spec fn spec_parse(s: Seq<char>) -> Option<DiceExpr> {
    if s.len() >= 1 && s[0] == '(' {
        parse_paren(s)
    } else {
        parse_plain(s)
    }
}

/// Digit runs consist of digits.
proof fn lemma_run_digits(s: Seq<char>, from: int)
    ensures
        forall|j: int| from <= j < num_end(s, from) ==> is_digit(#[trigger] s[j]),
        num_end(s, from) >= from,
        from <= s.len() ==> num_end(s, from) <= s.len(),
    decreases s.len() - from,
{
    if 0 <= from < s.len() && is_digit(s[from]) {
        lemma_run_digits(s, from + 1);
    }
}

/// The value of a digit run is nonnegative, and positive from the first
/// digit on when there is no leading zero.
proof fn lemma_value_of_run_nonneg(s: Seq<char>, from: int, to: int)
    requires
        forall|j: int| from <= j < to ==> is_digit(#[trigger] s[j]),
    ensures
        value_of_run(s, from, to) >= 0,
        from < to && s[from] != '0' ==> value_of_run(s, from, to) >= 1,
    decreases to - from,
{
    if from < to {
        lemma_value_of_run_nonneg(s, from, to - 1);
    }
}

/// Growing a digit run never shrinks its value.
proof fn lemma_value_of_run_monotone(s: Seq<char>, from: int, t1: int, t2: int)
    requires
        t1 <= t2,
        forall|j: int| from <= j < t2 ==> is_digit(#[trigger] s[j]),
    ensures
        value_of_run(s, from, t1) <= value_of_run(s, from, t2),
    decreases t2 - t1,
{
    if t1 < t2 {
        lemma_value_of_run_monotone(s, from, t1, t2 - 1);
        lemma_value_of_run_nonneg(s, from, t2 - 1);
    }
}

/// A digit run renders back to itself: the decimal rendering of its value
/// is exactly the run.
proof fn lemma_run_renders(s: Seq<char>, from: int, to: int)
    requires
        0 <= from < to <= s.len(),
        forall|j: int| from <= j < to ==> is_digit(#[trigger] s[j]),
        to - from > 1 ==> s[from] != '0',
    ensures
        dec_digits(value_of_run(s, from, to) as nat) =~= s.subrange(from, to),
        value_of_run(s, from, to) >= 0,
    decreases to - from,
{
    lemma_value_of_run_nonneg(s, from, to);
    let v = value_of_run(s, from, to);
    let d = digit_val(s[to - 1]);
    if to - from == 1 {
        lemma_digit_char_val(d);
        assert(digit_char(digit_val(s[from])) == s[from]);
        assert(value_of_run(s, from, to - 1) == 0);
        assert(v == digit_val(s[from]));
        assert(0 <= v < 10);
        assert(dec_digits(v as nat) == seq![digit_char(v)]);
        assert(s.subrange(from, to) =~= seq![s[from]]);
        assert(dec_digits(v as nat) =~= s.subrange(from, to));
    } else {
        lemma_run_renders(s, from, to - 1);
        let v0 = value_of_run(s, from, to - 1);
        assert(v0 >= 1) by {
            lemma_value_of_run_nonneg(s, from, to - 1);
        }
        assert(v == v0 * 10 + d);
        assert(v >= 10);
        assert(v / 10 == v0 && v % 10 == d) by {
            vstd::arithmetic::div_mod::lemma_fundamental_div_mod_converse(v, 10, v0, d);
        }
        lemma_digit_char_val(d);
        assert(dec_digits(v as nat) == dec_digits((v / 10) as nat).push(
            digit_char((v % 10) as int),
        ));
        assert(dec_digits(v as nat) =~= s.subrange(from, to));
    }
}

/// A digit run bounded by a non-digit (or the end of the string) has
/// exactly that length.
proof fn lemma_run_len_exact(s: Seq<char>, from: int, to: int)
    requires
        0 <= from <= to <= s.len(),
        forall|j: int| from <= j < to ==> is_digit(#[trigger] s[j]),
        to == s.len() || !is_digit(s[to]),
    ensures
        digit_run_len(s, from) == to - from,
    decreases to - from,
{
    if from < to {
        lemma_run_len_exact(s, from + 1, to);
    }
}

/// Whatever the parser accepts is well-formed and renders back to the
/// input: the grammar's strings are exactly the renderings.
pub proof fn lemma_parse_sound(s: Seq<char>)
    requires
        spec_parse(s) is Some,
    ensures
        spec_parse(s)->Some_0.wf(),
        render_expr(spec_parse(s)->Some_0) == s,
{
    let e = spec_parse(s)->Some_0;
    if s.len() >= 1 && s[0] == '(' {
        let i1 = num_end(s, 1);
        let i2 = num_end(s, i1 + 1);
        let i3 = num_end(s, i2 + 3);
        let end = num_end(s, i3 + 4);
        lemma_run_digits(s, 1);
        lemma_run_digits(s, i1 + 1);
        lemma_run_digits(s, i2 + 3);
        lemma_run_digits(s, i3 + 4);
        lemma_run_renders(s, 1, i1);
        lemma_run_renders(s, i1 + 1, i2);
        lemma_run_renders(s, i2 + 3, i3);
        lemma_run_renders(s, i3 + 4, end);
        proof_strlits();
        assert(render_expr(e) =~= s);
    } else {
        let i1 = num_end(s, 0);
        let i2 = num_end(s, i1 + 1);
        lemma_run_digits(s, 0);
        lemma_run_digits(s, i1 + 1);
        lemma_run_renders(s, 0, i1);
        lemma_run_renders(s, i1 + 1, i2);
        proof_strlits();
        if i2 == s.len() {
            assert(render_expr(e) =~= s);
        } else {
            let end = num_end(s, i2 + 3);
            lemma_run_digits(s, i2 + 3);
            lemma_run_renders(s, i2 + 3, end);
            assert(render_expr(e) =~= s);
        }
    }
}

/// A decimal rendering standing at `from`, bounded by a non-digit or the
/// string's end, is scanned back as exactly the number it renders.
proof fn lemma_number_segment(s: Seq<char>, from: int, v: u64)
    requires
        0 <= from,
        from + dec_digits(v as nat).len() <= s.len(),
        s.subrange(from, from + dec_digits(v as nat).len() as int) == dec_digits(v as nat),
        from + dec_digits(v as nat).len() == s.len() || !is_digit(
            s[from + dec_digits(v as nat).len() as int],
        ),
    ensures
        num_end(s, from) == from + dec_digits(v as nat).len(),
        num_val(s, from) == v as int,
        valid_number(s, from),
{
    let len = dec_digits(v as nat).len() as int;
    let to = from + len;
    lemma_dec_digits_len(v as nat);
    lemma_dec_digits_are_digits(v as nat);
    assert forall|j: int| from <= j < to implies is_digit(#[trigger] s[j]) by {
        assert(s[j] == s.subrange(from, to)[j - from]);
    }
    lemma_run_len_exact(s, from, to);
    if v >= 1 {
        lemma_dec_digits_no_leading_zero(v as nat);
        assert(s[from] == s.subrange(from, to)[0]);
    }
    lemma_run_renders(s, from, to);
    lemma_dec_digits_injective(value_of_run(s, from, to) as nat, v as nat);
}

/// Every well-formed expression's rendering parses back to it: the parser
/// is a left inverse of the renderer over well-formed expressions.
pub proof fn lemma_render_parses(e: DiceExpr)
    requires
        e.wf(),
    ensures
        spec_parse(render_expr(e)) == Some(e),
{
    proof_strlits();
    let s = render_expr(e);
    let a = dec_digits(e.count as nat).len() as int;
    let b = dec_digits(e.sides as nat).len() as int;
    lemma_dec_digits_len(e.count as nat);
    lemma_dec_digits_len(e.sides as nat);
    lemma_dec_digits_are_digits(e.count as nat);
    match (e.bonus, e.multiplier) {
        (Option::None, Option::None) => {
            assert(s.len() == a + 1 + b);
            assert(s.subrange(0, a) =~= dec_digits(e.count as nat));
            assert(s[a] == 'd');
            assert(s.subrange(a + 1, a + 1 + b) =~= dec_digits(e.sides as nat));
            lemma_number_segment(s, 0, e.count);
            lemma_number_segment(s, a + 1, e.sides);
            assert(is_digit(s[0]));
            assert(parse_plain(s) == Some(e));
        },
        (Option::None, Option::Some(c)) => {
            let cl = dec_digits(c as nat).len() as int;
            lemma_dec_digits_len(c as nat);
            assert(s.len() == a + 1 + b + 3 + cl);
            assert(s.subrange(0, a) =~= dec_digits(e.count as nat));
            assert(s[a] == 'd');
            assert(s.subrange(a + 1, a + 1 + b) =~= dec_digits(e.sides as nat));
            let i2 = a + 1 + b;
            assert(s[i2] == ' ' && s[i2 + 1] == '*' && s[i2 + 2] == ' ');
            assert(s.subrange(i2 + 3, i2 + 3 + cl) =~= dec_digits(c as nat));
            lemma_number_segment(s, 0, e.count);
            lemma_number_segment(s, a + 1, e.sides);
            lemma_number_segment(s, i2 + 3, c);
            assert(sep_at(s, i2, " * "@));
            assert(is_digit(s[0]));
            assert(parse_plain(s) == Some(e));
        },
        (Option::Some(k), Option::Some(c)) => {
            let kl = dec_digits(k as nat).len() as int;
            let cl = dec_digits(c as nat).len() as int;
            lemma_dec_digits_len(k as nat);
            lemma_dec_digits_len(c as nat);
            assert(s.len() == 1 + a + 1 + b + 3 + kl + 4 + cl);
            assert(s[0] == '(');
            assert(s.subrange(1, 1 + a) =~= dec_digits(e.count as nat));
            assert(s[1 + a] == 'd');
            assert(s.subrange(2 + a, 2 + a + b) =~= dec_digits(e.sides as nat));
            let i2 = 2 + a + b;
            assert(s[i2] == ' ' && s[i2 + 1] == '+' && s[i2 + 2] == ' ');
            assert(s.subrange(i2 + 3, i2 + 3 + kl) =~= dec_digits(k as nat));
            let i3 = i2 + 3 + kl;
            assert(s[i3] == ')' && s[i3 + 1] == ' ' && s[i3 + 2] == '*' && s[i3 + 3] == ' ');
            assert(s.subrange(i3 + 4, i3 + 4 + cl) =~= dec_digits(c as nat));
            lemma_number_segment(s, 1, e.count);
            lemma_number_segment(s, 2 + a, e.sides);
            lemma_number_segment(s, i2 + 3, k);
            lemma_number_segment(s, i3 + 4, c);
            assert(sep_at(s, i2, " + "@));
            assert(sep_at(s, i3, ") * "@));
            assert(parse_paren(s) == Some(e));
        },
        (Option::Some(_), Option::None) => {
            assert(false);
        },
    }
}

/// Reveals every string literal of the grammar.
proof fn proof_strlits()
    ensures
        "d"@ =~= seq!['d'],
        "("@ =~= seq!['('],
        " * "@ =~= seq![' ', '*', ' '],
        " + "@ =~= seq![' ', '+', ' '],
        ") * "@ =~= seq![')', ' ', '*', ' '],
{
    reveal_strlit("d");
    reveal_strlit("(");
    reveal_strlit(" * ");
    reveal_strlit(" + ");
    reveal_strlit(") * ");
}

/// A digit run covering `[from, t)` is at least `t - from` long.
proof fn lemma_run_len_at_least(s: Seq<char>, from: int, t: int)
    requires
        0 <= from <= t <= s.len(),
        forall|j: int| from <= j < t ==> is_digit(#[trigger] s[j]),
    ensures
        digit_run_len(s, from) >= t - from,
    decreases t - from,
{
    if from < t {
        assert(is_digit(s[from]));
        lemma_run_len_at_least(s, from + 1, t);
        assert(digit_run_len(s, from) == 1 + digit_run_len(s, from + 1));
    } else {
        lemma_run_digits(s, from);
    }
}

fn digit_of(c: char) -> (r: Option<u64>)
    ensures
        r matches Some(d) ==> digit_val(c) == d as int && d < 10,
        r is None ==> !is_digit(c),
{
    match c {
        '0' => Some(0),
        '1' => Some(1),
        '2' => Some(2),
        '3' => Some(3),
        '4' => Some(4),
        '5' => Some(5),
        '6' => Some(6),
        '7' => Some(7),
        '8' => Some(8),
        '9' => Some(9),
        _ => None,
    }
}

/// Scans the digit run starting at `from`: its value and its end, or
/// nothing when no canonical number stands there.
fn scan_number(s: &str, from: usize, slen: usize) -> (r: Option<(u64, usize)>)
    requires
        slen == s@.len(),
        from <= slen,
    ensures
        r matches Some(p) ==> valid_number(s@, from as int) && p.1 as int == num_end(
            s@,
            from as int,
        ) && p.0 as int == num_val(s@, from as int) && from < p.1 <= slen,
        r is None ==> !valid_number(s@, from as int),
{
    if from == slen {
        return None;
    }
    let first = match digit_of(s.get_char(from)) {
        Some(d) => d,
        None => {
            return None;
        },
    };
    let mut value: u64 = first;
    let mut i: usize = from + 1;
    proof {
        assert(value_of_run(s@, from as int, from as int) == 0);
        assert(value_of_run(s@, from as int, from + 1) == digit_val(s@[from as int]));
    }
    while i < slen && digit_of(s.get_char(i)).is_some()
        invariant
            slen == s@.len(),
            from < i <= slen,
            forall|j: int| from <= j < i ==> is_digit(#[trigger] s@[j]),
            value as int == value_of_run(s@, from as int, i as int),
            digit_val(s@[from as int]) == first as int,
        decreases slen - i,
    {
        let d = digit_of(s.get_char(i)).unwrap();
        let next = match value.checked_mul(10) {
            Some(x) => x.checked_add(d),
            None => None,
        };
        match next {
            Some(x) => {
                value = x;
            },
            None => {
                proof {
                    let ghost sv = s@;
                    let ghost fi = from as int;
                    assert(value_of_run(sv, fi, i + 1) == value as int * 10 + d as int);
                    lemma_run_digits(sv, fi);
                    lemma_run_len_at_least(sv, fi, i + 1);
                    lemma_value_of_run_monotone(sv, fi, i + 1, num_end(sv, fi));
                }
                return None;
            },
        }
        i += 1;
    }
    proof {
        lemma_run_len_exact(s@, from as int, i as int);
    }
    if i > from + 1 && first == 0 {
        return None;
    }
    Some((value, i))
}

impl DiceExpr {
    /// Parses the textual grammar `<N>d<M>[ * <C>]` / `(<N>d<M> + <K>) * <C>`:
    /// exactly the strings some well-formed expression renders to are
    /// accepted, and the accepted expression renders back to the input.
    pub fn parse(s: &str) -> (r: Result<DiceExpr, PricingError>)
        ensures
            match spec_parse(s@) {
                Some(e) => r == Ok::<DiceExpr, PricingError>(e) && e.wf() && s@ == render_expr(e),
                None => r == Err::<DiceExpr, PricingError>(PricingError::Malformed),
            },
    {
        let slen = s.unicode_len();
        let r = if slen >= 1 && s.get_char(0) == '(' {
            parse_paren_exec(s, slen)
        } else {
            parse_plain_exec(s, slen)
        };
        proof {
            if spec_parse(s@) is Some {
                lemma_parse_sound(s@);
            }
        }
        r
    }
}

fn parse_plain_exec(s: &str, slen: usize) -> (r: Result<DiceExpr, PricingError>)
    requires
        slen == s@.len(),
        !(s@.len() >= 1 && s@[0] == '('),
    ensures
        match spec_parse(s@) {
            Some(e) => r == Ok::<DiceExpr, PricingError>(e),
            None => r == Err::<DiceExpr, PricingError>(PricingError::Malformed),
        },
{
    let (n, i1) = match scan_number(s, 0, slen) {
        Some(p) => p,
        None => {
            return Err(PricingError::Malformed);
        },
    };
    if i1 == slen {
        return Err(PricingError::Malformed);
    }
    if s.get_char(i1) != 'd' {
        return Err(PricingError::Malformed);
    }
    let (m, i2) = match scan_number(s, i1 + 1, slen) {
        Some(p) => p,
        None => {
            return Err(PricingError::Malformed);
        },
    };
    if n < 1 || m < 1 {
        return Err(PricingError::Malformed);
    }
    if i2 == slen {
        return Ok(DiceExpr { count: n, sides: m, bonus: None, multiplier: None });
    }
    proof {
        proof_strlits();
    }
    if slen - i2 < 3 {
        return Err(PricingError::Malformed);
    }
    if s.get_char(i2) != ' ' || s.get_char(i2 + 1) != '*' || s.get_char(i2 + 2) != ' ' {
        return Err(PricingError::Malformed);
    }
    assert(sep_at(s@, i2 as int, " * "@));
    let (c, end) = match scan_number(s, i2 + 3, slen) {
        Some(p) => p,
        None => {
            return Err(PricingError::Malformed);
        },
    };
    if end != slen || c < 1 {
        return Err(PricingError::Malformed);
    }
    Ok(DiceExpr { count: n, sides: m, bonus: None, multiplier: Some(c) })
}

fn parse_paren_exec(s: &str, slen: usize) -> (r: Result<DiceExpr, PricingError>)
    requires
        slen == s@.len(),
        s@.len() >= 1,
        s@[0] == '(',
    ensures
        match spec_parse(s@) {
            Some(e) => r == Ok::<DiceExpr, PricingError>(e),
            None => r == Err::<DiceExpr, PricingError>(PricingError::Malformed),
        },
{
    proof {
        proof_strlits();
    }
    let (n, i1) = match scan_number(s, 1, slen) {
        Some(p) => p,
        None => {
            return Err(PricingError::Malformed);
        },
    };
    if i1 == slen {
        return Err(PricingError::Malformed);
    }
    if s.get_char(i1) != 'd' {
        return Err(PricingError::Malformed);
    }
    let (m, i2) = match scan_number(s, i1 + 1, slen) {
        Some(p) => p,
        None => {
            return Err(PricingError::Malformed);
        },
    };
    if slen - i2 < 3 {
        return Err(PricingError::Malformed);
    }
    if s.get_char(i2) != ' ' || s.get_char(i2 + 1) != '+' || s.get_char(i2 + 2) != ' ' {
        return Err(PricingError::Malformed);
    }
    assert(sep_at(s@, i2 as int, " + "@));
    let (k, i3) = match scan_number(s, i2 + 3, slen) {
        Some(p) => p,
        None => {
            return Err(PricingError::Malformed);
        },
    };
    if slen - i3 < 4 {
        return Err(PricingError::Malformed);
    }
    if s.get_char(i3) != ')' || s.get_char(i3 + 1) != ' ' || s.get_char(i3 + 2) != '*'
        || s.get_char(i3 + 3) != ' ' {
        return Err(PricingError::Malformed);
    }
    assert(sep_at(s@, i3 as int, ") * "@));
    let (c, end) = match scan_number(s, i3 + 4, slen) {
        Some(p) => p,
        None => {
            return Err(PricingError::Malformed);
        },
    };
    if end != slen || c < 1 {
        return Err(PricingError::Malformed);
    }
    if n < 1 || m < 1 {
        return Err(PricingError::Malformed);
    }
    Ok(DiceExpr { count: n, sides: m, bonus: Some(k), multiplier: Some(c) })
}

impl DiceExpr {
    /// Evaluates the expression: the sum of `count` independent uniform
    /// draws in `[1, sides]`, plus the bonus, times the multiplier. The
    /// result always lies in the expression's theoretical min/max range;
    /// evaluation only fails when that range exceeds the machine integers.
    #[verifier::loop_isolation(false)]
    pub fn eval(&self, rng: &mut RandomSource) -> (r: Result<u64, PricingError>)
        requires
            self.wf(),
        ensures
            r matches Ok(v) ==> self.spec_min_value() <= v as int <= self.spec_max_value(),
            self.spec_max_value() <= u64::MAX as int ==> r is Ok,
    {
        let ghost cnt = self.count as int;
        let ghost sides = self.sides as int;
        let ghost bonus = self.spec_bonus();
        let ghost mult = self.spec_multiplier();
        proof {
            assert(cnt * sides + bonus <= (cnt * sides + bonus) * mult) by (nonlinear_arith)
                requires
                    cnt >= 1,
                    sides >= 1,
                    bonus >= 0,
                    mult >= 1,
            ;
        }
        let mut sum: u64 = 0;
        let mut i: u64 = 0;
        while i < self.count
            invariant
                i <= self.count,
                i as int <= sum as int,
                sum as int <= i as int * sides as int,
            decreases self.count - i,
        {
            let roll = rng.roll_die(self.sides);
            proof {
                assert((i as int + 1) * sides == i as int * sides + sides) by (nonlinear_arith);
                lemma_mul_inequality(i as int + 1, cnt, sides);
            }
            let new_sum = match sum.checked_add(roll) {
                Some(x) => x,
                None => {
                    proof {
                        assert(cnt * sides + bonus > u64::MAX as int);
                    }
                    return Err(PricingError::Unevaluable);
                },
            };
            sum = new_sum;
            i += 1;
        }
        proof {
            lemma_mul_inequality(i as int, cnt, sides);
        }
        // sum now lies in [count, count * sides]
        let base = match self.bonus {
            Some(k) => {
                match sum.checked_add(k) {
                    Some(x) => x,
                    None => {
                        return Err(PricingError::Unevaluable);
                    },
                }
            },
            None => sum,
        };
        // base now lies in [count + bonus, count * sides + bonus]
        match self.multiplier {
            Some(c) => {
                proof {
                    lemma_mul_inequality(base as int, cnt * sides + bonus, c as int);
                    lemma_mul_inequality(cnt + bonus, base as int, c as int);
                }
                match base.checked_mul(c) {
                    Some(x) => Ok(x),
                    None => Err(PricingError::Unevaluable),
                }
            },
            None => Ok(base),
        }
    }
}

} // verus!

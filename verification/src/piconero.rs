//! Amounts of Monero, counted in piconero, and their text form.

use crate::text::{
    all_digits, char_digit_value, char_is_digit, chars_of, decimal, digit_char, digit_value,
    is_digit, padded, pow10, push_char, push_decimal, push_padded,
};
use num_format::{Locale, ToFormattedString};
use vstd::prelude::*;

verus! {

/// The number of piconero in one XMR.
pub const PICONEROS_PER_XMR: u64 = 1_000_000_000_000;

/// The least whole number of XMR that no `u64` of piconero can hold.
const WHOLE_LIMIT: u64 = 18_446_745;

/// The unit that ends every amount, with the space before it.
pub open spec fn unit_suffix() -> Seq<char> {
    seq![' ', 'X', 'M', 'R']
}

/// `n` in decimal, with a comma before every group of three digits.
pub open spec fn grouped(n: nat) -> Seq<char>
    decreases n,
{
    if n < 1000 {
        decimal(n)
    } else {
        grouped(n / 1000) + seq![','] + padded(n % 1000, 3)
    }
}

/// `s` without the zeros at its end.
pub open spec fn stripped(s: Seq<char>) -> Seq<char>
    decreases s.len(),
{
    if s.len() > 0 && s.last() == '0' {
        stripped(s.drop_last())
    } else {
        s
    }
}

/// How a remainder below one XMR is written: nothing for zero, else a point
/// and the twelve decimal places without the zeros at their end.
pub open spec fn fraction_text(rest: nat) -> Seq<char> {
    if rest == 0 {
        Seq::empty()
    } else {
        seq!['.'] + stripped(padded(rest, 12))
    }
}

/// How an amount is displayed: whole XMR in groups of three, the fraction,
/// the unit.
pub open spec fn amount_text(v: nat) -> Seq<char> {
    grouped(v / 1_000_000_000_000) + fraction_text(v % 1_000_000_000_000) + unit_suffix()
}

/// How an amount is written for a payer's wallet: as `amount_text`, but
/// without grouping and without the unit.
pub open spec fn plain_text(v: nat) -> Seq<char> {
    decimal(v / 1_000_000_000_000) + fraction_text(v % 1_000_000_000_000)
}

/// What the decimal place `i` of a fraction counts, in piconero. Places past
/// the twelfth are below one piconero and count nothing.
pub open spec fn place_weight(i: nat) -> nat {
    if i >= 12 {
        0
    } else {
        pow10((11 - i) as nat)
    }
}

/// The piconero that the digits after the decimal point stand for.
pub open spec fn scaled_fraction(frac: Seq<char>) -> nat
    decreases frac.len(),
{
    if frac.len() == 0 {
        0
    } else {
        scaled_fraction(frac.drop_last()) + digit_value(frac.last()) * place_weight(
            (frac.len() - 1) as nat,
        )
    }
}

/// The first index at or after `from` that holds a decimal point, or the
/// length of `s` where there is none.
pub open spec fn point_index(s: Seq<char>, from: int) -> int
    decreases s.len() - from,
{
    if from < 0 || from >= s.len() || s[from] == '.' {
        from
    } else {
        point_index(s, from + 1)
    }
}

/// Whether the character at `i` is what grouping by three puts there: a
/// comma at every fourth place counted from the end, a digit elsewhere.
pub open spec fn group_char_ok(w: Seq<char>, i: int) -> bool {
    if (w.len() - i) % 4 == 0 {
        w[i] == ','
    } else {
        is_digit(w[i])
    }
}

/// Whether `w` is a number in groups as the display writes them: a first
/// group of one to three digits, then groups of exactly three digits, each
/// after a comma.
pub open spec fn is_grouped(w: Seq<char>) -> bool {
    &&& w.len() % 4 != 0
    &&& forall|i: int| 0 <= i < w.len() ==> #[trigger] group_char_ok(w, i)
}

/// Whether `w` can stand before the decimal point: digits alone, at least
/// one, or a number in groups.
pub open spec fn is_whole_part(w: Seq<char>) -> bool {
    (w.len() > 0 && all_digits(w)) || is_grouped(w)
}

/// The number that the digits of `w` denote, most significant first, where
/// commas between them count nothing.
pub open spec fn whole_value(w: Seq<char>) -> nat
    decreases w.len(),
{
    if w.len() == 0 {
        0
    } else if w.last() == ',' {
        whole_value(w.drop_last())
    } else {
        whole_value(w.drop_last()) * 10 + digit_value(w.last())
    }
}

/// The piconero that the number `body` stands for, where it is one: a whole
/// part, plain or in groups, then optionally a point and digits.
pub open spec fn parsed_number(body: Seq<char>) -> Option<nat> {
    let k = point_index(body, 0);
    if !is_whole_part(body.take(k)) {
        None
    } else if k == body.len() {
        Some(whole_value(body.take(k)) * 1_000_000_000_000)
    } else if k + 1 < body.len() && all_digits(body.skip(k + 1)) {
        Some(whole_value(body.take(k)) * 1_000_000_000_000 + scaled_fraction(body.skip(k + 1)))
    } else {
        None
    }
}

/// The piconero that the text `s` stands for, where it is an amount: a
/// number, one space and the unit, with nothing before or after.
pub open spec fn parsed_amount(s: Seq<char>) -> Option<nat> {
    if s.len() < 4 || s.skip(s.len() - 4) != unit_suffix() {
        None
    } else {
        parsed_number(s.take(s.len() - 4))
    }
}

/// `n`, or the largest `u64` where `n` is above it.
pub open spec fn saturated(n: nat) -> u64 {
    if n > u64::MAX {
        u64::MAX
    } else {
        n as u64
    }
}

/// What `{:?}` prints for a string: the text in double quotes, with escapes.
pub uninterp spec fn debug_quoted(s: Seq<char>) -> Seq<char>;

/// The text before the rejected input in an error message.
pub open spec fn rejection_head() -> Seq<char> {
    "invalid value: string "@
}

/// The text after the rejected input in an error message.
pub open spec fn rejection_tail() -> Seq<char> {
    ", expected integer number of XMR, including unit, e.g. \"1000 XMR\""@
}

/// Formats a number with the separators of the English locale. Trusted:
/// `num_format::ToFormattedString::to_formatted_string` with `Locale::en`
/// writes the decimal digits with a comma before each group of three,
/// counted from the right.
#[verifier::external_body]
fn grouped_decimal(n: u64) -> (s: String)
    ensures
        s@ == grouped(n as nat),
{
    n.to_formatted_string(&Locale::en)
}

/// Quotes a string as `{:?}` does. Trusted: the result of std's `Debug` for
/// `str` depends on the text alone.
#[verifier::external_body]
fn quote(s: &str) -> (r: String)
    ensures
        r@ == debug_quoted(s@),
{
    format!("{:?}", s)
}

/// An amount of Monero in piconero, the smallest unit.
#[derive(Clone, Copy, Debug, PartialEq, Eq, Structural)]
pub struct Piconero(u64);

impl View for Piconero {
    type V = u64;

    closed spec fn view(&self) -> u64 {
        self.0
    }
}

/// A text that is no amount.
#[derive(Debug)]
pub struct AmountError {
    input: String,
}

impl Clone for AmountError {
    fn clone(&self) -> (r: Self)
        ensures
            r@ == self@,
    {
        AmountError { input: self.input.clone() }
    }
}

impl View for AmountError {
    type V = Seq<char>;

    /// The text that was rejected.
    closed spec fn view(&self) -> Seq<char> {
        self.input@
    }
}

impl AmountError {
    /// The text that was rejected.
    pub fn input(&self) -> (s: &str)
        ensures
            s@ == self@,
    {
        self.input.as_str()
    }

    /// The message for the user: what was rejected and what is expected.
    pub fn to_string(&self) -> (s: String)
        ensures
            s@ == rejection_head() + debug_quoted(self@) + rejection_tail(),
    {
        let quoted = quote(self.input.as_str());
        rejection_message(quoted.as_str())
    }
}

/// The message that rejects an input, given the input in quotes: that the
/// value is invalid, the quoted input, and what is expected in its place.
pub fn rejection_message(quoted: &str) -> (s: String)
    ensures
        s@ == rejection_head() + quoted@ + rejection_tail(),
{
    let mut s = String::from_str("invalid value: string ");
    s.append(quoted);
    s.append(", expected integer number of XMR, including unit, e.g. \"1000 XMR\"");
    s
}

/// The end of the run of digits that starts at `from`, within the first
/// `limit` characters.
fn scan_digits(chars: &Vec<char>, from: usize, limit: usize) -> (to: usize)
    requires
        from <= limit <= chars.len(),
    ensures
        from <= to <= limit,
        forall|i: int| from <= i < to ==> is_digit(#[trigger] chars@[i]),
        to < limit ==> !is_digit(chars@[to as int]),
{
    let mut i: usize = from;
    while i < limit && char_is_digit(chars[i])
        invariant
            from <= i <= limit <= chars.len(),
            forall|j: int| from <= j < i ==> is_digit(#[trigger] chars@[j]),
        decreases limit - i,
    {
        i = i + 1;
    }
    i
}

/// The place of the first decimal point within the first `limit`
/// characters, or `limit` where there is none.
fn find_point(chars: &Vec<char>, limit: usize) -> (k: usize)
    requires
        limit <= chars.len(),
    ensures
        k <= limit,
        k == point_index(chars@.take(limit as int), 0),
        k < limit ==> chars@[k as int] == '.',
{
    let ghost body = chars@.take(limit as int);
    let mut i: usize = 0;
    while i < limit && chars[i] != '.'
        invariant
            i <= limit <= chars.len(),
            body == chars@.take(limit as int),
            point_index(body, 0) == point_index(body, i as int),
        decreases limit - i,
    {
        i = i + 1;
    }
    i
}

/// Whether the first `k` characters are a number in groups.
fn check_grouped(chars: &Vec<char>, k: usize) -> (r: bool)
    requires
        k <= chars.len(),
    ensures
        r == is_grouped(chars@.take(k as int)),
{
    let ghost w = chars@.take(k as int);
    if k % 4 == 0 {
        return false;
    }
    let mut i: usize = 0;
    while i < k
        invariant
            i <= k <= chars.len(),
            w == chars@.take(k as int),
            forall|j: int| 0 <= j < i ==> #[trigger] group_char_ok(w, j),
        decreases k - i,
    {
        let c = chars[i];
        assert(w[i as int] == c);
        let fits = if (k - i) % 4 == 0 {
            c == ','
        } else {
            char_is_digit(c)
        };
        if !fits {
            assert(!group_char_ok(w, i as int));
            return false;
        }
        i = i + 1;
    }
    true
}

/// The whole XMR that the digits in `from..to` stand for, commas between
/// them counting nothing, held at `WHOLE_LIMIT` where they stand for more.
fn whole_units(chars: &Vec<char>, from: usize, to: usize) -> (r: u64)
    requires
        from <= to <= chars.len(),
        forall|i: int| from <= i < to ==> is_digit(#[trigger] chars@[i]) || chars@[i] == ',',
    ensures
        r <= WHOLE_LIMIT,
        r == if whole_value(chars@.subrange(from as int, to as int)) >= WHOLE_LIMIT {
            WHOLE_LIMIT as nat
        } else {
            whole_value(chars@.subrange(from as int, to as int))
        },
{
    let mut acc: u64 = 0;
    let mut i: usize = from;
    assert(chars@.subrange(from as int, from as int) =~= Seq::<char>::empty());
    while i < to
        invariant
            from <= i <= to <= chars.len(),
            forall|j: int| from <= j < to ==> is_digit(#[trigger] chars@[j]) || chars@[j] == ',',
            acc <= WHOLE_LIMIT,
            acc == if whole_value(chars@.subrange(from as int, i as int)) >= WHOLE_LIMIT {
                WHOLE_LIMIT as nat
            } else {
                whole_value(chars@.subrange(from as int, i as int))
            },
        decreases to - i,
    {
        let c = chars[i];
        proof {
            let before = chars@.subrange(from as int, i as int);
            assert(chars@.subrange(from as int, i + 1) =~= before.push(c));
            lemma_whole_value_push(before, c);
        }
        if c != ',' {
            let d = char_digit_value(c);
            let next: u64 = acc * 10 + d;
            acc = if next >= WHOLE_LIMIT {
                WHOLE_LIMIT
            } else {
                next
            };
        }
        i = i + 1;
    }
    acc
}

/// A number extends by one digit as its value does, and a comma leaves the
/// value as it is.
pub proof fn lemma_whole_value_push(w: Seq<char>, c: char)
    ensures
        whole_value(w.push(c)) == if c == ',' {
            whole_value(w)
        } else {
            whole_value(w) * 10 + digit_value(c)
        },
{
    assert(w.push(c).drop_last() =~= w);
}

/// Two amounts of the same number of piconero are the same amount.
pub proof fn lemma_equal_amounts(a: Piconero, b: Piconero)
    requires
        a@ == b@,
    ensures
        a == b,
{
}

/// The piconero that the decimal places in `from..to` stand for.
fn fraction_units(chars: &Vec<char>, from: usize, to: usize) -> (r: u64)
    requires
        from <= to <= chars.len(),
        forall|i: int| from <= i < to ==> is_digit(#[trigger] chars@[i]),
    ensures
        r == scaled_fraction(chars@.subrange(from as int, to as int)),
        r < PICONEROS_PER_XMR,
{
    let mut acc: u64 = 0;
    let mut weight: u64 = 100_000_000_000;
    let mut i: usize = from;
    proof {
        reveal_with_fuel(pow10, 12);
        assert(pow10(11) == 100_000_000_000);
        assert(chars@.subrange(from as int, from as int) =~= Seq::<char>::empty());
    }
    while i < to
        invariant
            from <= i <= to <= chars.len(),
            forall|j: int| from <= j < to ==> is_digit(#[trigger] chars@[j]),
            weight == place_weight((i - from) as nat),
            weight <= 100_000_000_000,
            i - from < 12 ==> weight >= 1,
            i - from < 11 ==> weight % 10 == 0,
            acc + 10 * weight <= PICONEROS_PER_XMR,
            i - from >= 12 ==> acc < PICONEROS_PER_XMR,
            acc == scaled_fraction(chars@.subrange(from as int, i as int)),
        decreases to - i,
    {
        let d = char_digit_value(chars[i]);
        proof {
            let before = chars@.subrange(from as int, i as int);
            let after = chars@.subrange(from as int, i + 1);
            assert(after.drop_last() =~= before);
            assert(after.last() == chars@[i as int]);
            assert(d * weight <= 9 * weight) by (nonlinear_arith)
                requires
                    d <= 9,
                    weight >= 0,
            ;
            lemma_place_weight_step((i - from) as nat);
        }
        acc = acc + d * weight;
        weight = weight / 10;
        i = i + 1;
    }
    acc
}

/// Each decimal place counts a tenth of the one before it.
proof fn lemma_place_weight_step(i: nat)
    ensures
        place_weight(i + 1) == place_weight(i) / 10,
        i < 11 ==> place_weight(i) % 10 == 0 && place_weight(i) >= 10,
        i == 11 ==> place_weight(i) == 1,
        i < 12 ==> place_weight(i) >= 1,
{
    reveal_with_fuel(pow10, 2);
    if i < 11 {
        let e = (11 - i) as nat;
        assert(pow10(e) == 10 * pow10((e - 1) as nat));
        lemma_pow10_positive((e - 1) as nat);
    } else if i == 11 {
        assert(pow10(0) == 1);
    }
}

/// Every power of ten is at least one.
pub proof fn lemma_pow10_positive(e: nat)
    ensures
        pow10(e) >= 1,
    decreases e,
{
    if e > 0 {
        lemma_pow10_positive((e - 1) as nat);
    }
}

impl Piconero {
    /// One XMR.
    pub fn one_xmr() -> (p: Piconero)
        ensures
            p@ == PICONEROS_PER_XMR,
    {
        Piconero(PICONEROS_PER_XMR)
    }

    /// The amount of `value` piconero.
    pub fn new(value: u64) -> (p: Piconero)
        ensures
            p@ == value,
    {
        Piconero(value)
    }

    /// The amount in piconero.
    pub fn value(self) -> (v: u64)
        ensures
            v == self@,
    {
        self.0
    }

    /// Reads an amount such as `1.5 XMR` or `1,000.25 XMR`: a whole part,
    /// optionally a point and digits, one space, the unit. The whole part is
    /// digits alone or digits in groups of three with commas between, as
    /// `to_string` writes them. Decimal places past the twelfth are dropped,
    /// and an amount above the largest `u64` of piconero becomes that
    /// largest one. Any other text is rejected and handed back in the error.
    pub fn parse(text: &str) -> (r: Result<Piconero, AmountError>)
        ensures
            match parsed_amount(text@) {
                Some(n) => r is Ok && r->Ok_0@ == saturated(n),
                None => r is Err && r->Err_0@ == text@,
            },
    {
        let chars = chars_of(text);
        let n: usize = chars.len();
        if n < 4 {
            return Err(AmountError { input: text.to_owned() });
        }
        let end: usize = n - 4;
        let ghost tail = chars@.skip(end as int);
        assert(tail.len() == 4 && tail[0] == chars@[end as int] && tail[1] == chars@[end + 1]
            && tail[2] == chars@[end + 2] && tail[3] == chars@[end + 3]);
        if chars[end] != ' ' || chars[end + 1] != 'X' || chars[end + 2] != 'M' || chars[end + 3]
            != 'R' {
            return Err(AmountError { input: text.to_owned() });
        }
        assert(tail =~= unit_suffix());
        let ghost body = chars@.take(end as int);
        let k: usize = find_point(&chars, end);
        let ghost whole = body.take(k as int);
        assert(whole =~= chars@.take(k as int));
        let digits_to: usize = scan_digits(&chars, 0, k);
        let plain: bool = k > 0 && digits_to == k;
        proof {
            if digits_to == k {
                assert forall|i: int| 0 <= i < whole.len() implies is_digit(#[trigger] whole[i]) by {
                    assert(whole[i] == chars@[i]);
                }
            } else {
                assert(whole[digits_to as int] == chars@[digits_to as int]);
            }
            assert(plain == (whole.len() > 0 && all_digits(whole)));
        }
        let in_groups: bool = check_grouped(&chars, k);
        if !plain && !in_groups {
            return Err(AmountError { input: text.to_owned() });
        }
        assert forall|i: int| 0 <= i < k implies is_digit(#[trigger] chars@[i]) || chars@[i]
            == ',' by {
            assert(whole[i] == chars@[i]);
            if !plain {
                assert(group_char_ok(whole, i));
            }
        }
        let units: u64 = whole_units(&chars, 0, k);
        assert(chars@.subrange(0, k as int) =~= whole);
        let mut rest: u64 = 0;
        if k < end {
            if k + 1 >= end {
                return Err(AmountError { input: text.to_owned() });
            }
            let ghost places = body.skip(k + 1);
            let m: usize = scan_digits(&chars, k + 1, end);
            if m != end {
                assert(places[m - k - 1] == chars@[m as int]);
                return Err(AmountError { input: text.to_owned() });
            }
            assert forall|i: int| 0 <= i < places.len() implies is_digit(#[trigger] places[i]) by {
                assert(places[i] == chars@[i + k + 1]);
            }
            rest = fraction_units(&chars, k + 1, end);
            assert(chars@.subrange(k + 1, end as int) =~= places);
        }
        let ghost count = whole_value(whole);
        assert(parsed_amount(text@) == Some((count * 1_000_000_000_000 + rest) as nat));
        if units >= WHOLE_LIMIT {
            assert(count * 1_000_000_000_000 + rest > u64::MAX) by (nonlinear_arith)
                requires
                    count >= 18_446_745,
                    rest >= 0,
            ;
            return Ok(Piconero(u64::MAX));
        }
        assert(units * 1_000_000_000_000 <= 18_446_744 * 1_000_000_000_000) by (nonlinear_arith)
            requires
                units <= 18_446_744,
        ;
        let total: u128 = (units as u128) * 1_000_000_000_000u128 + (rest as u128);
        if total > u64::MAX as u128 {
            Ok(Piconero(u64::MAX))
        } else {
            Ok(Piconero(total as u64))
        }
    }

    /// The amount as it is shown to people: whole XMR in groups of three
    /// digits, then the fraction without zeros at its end (and no point
    /// where there is no fraction), then the unit.
    pub fn to_string(&self) -> (s: String)
        ensures
            s@ == amount_text(self@ as nat),
    {
        let mut s = grouped_decimal(self.0 / PICONEROS_PER_XMR);
        push_fraction(&mut s, self.0 % PICONEROS_PER_XMR);
        let ghost before = s@;
        push_char(&mut s, ' ');
        push_char(&mut s, 'X');
        push_char(&mut s, 'M');
        push_char(&mut s, 'R');
        assert(s@ =~= before + unit_suffix());
        s
    }

    /// The amount in XMR as a plain decimal number, as a payer's wallet
    /// reads it: no grouping, no unit.
    pub fn to_plain_string(&self) -> (s: String)
        ensures
            s@ == plain_text(self@ as nat),
    {
        let mut s = String::new();
        push_decimal(&mut s, self.0 / PICONEROS_PER_XMR);
        assert(s@ =~= decimal((self.0 / PICONEROS_PER_XMR) as nat));
        push_fraction(&mut s, self.0 % PICONEROS_PER_XMR);
        s
    }
}

/// Appends the fraction `rest` of one XMR to `out`.
fn push_fraction(out: &mut String, rest: u64)
    requires
        rest < PICONEROS_PER_XMR,
    ensures
        final(out)@ == old(out)@ + fraction_text(rest as nat),
{
    if rest == 0 {
        assert(out@ =~= old(out)@ + fraction_text(rest as nat));
        return ;
    }
    let mut f: u64 = rest;
    let mut width: u8 = 12;
    proof {
        reveal_with_fuel(pow10, 13);
        assert(pow10(12) == 1_000_000_000_000);
    }
    while f % 10 == 0
        invariant
            0 < f,
            f < pow10(width as nat),
            width <= 12,
            stripped(padded(rest as nat, 12)) == stripped(padded(f as nat, width as nat)),
        decreases f,
    {
        proof {
            if width == 0 {
                assert(pow10(0) == 1);
            }
            assert(pow10(width as nat) == 10 * pow10((width - 1) as nat));
            let field = padded(f as nat, width as nat);
            assert(field.last() == '0');
            assert(field.drop_last() =~= padded((f / 10) as nat, (width - 1) as nat));
        }
        f = f / 10;
        width = width - 1;
    }
    proof {
        if width == 0 {
            assert(pow10(0) == 1);
        }
        let field = padded(f as nat, width as nat);
        assert(field.last() == digit_char((f % 10) as nat));
        assert(stripped(field) == field);
    }
    push_char(out, '.');
    push_padded(out, f, width);
    assert(out@ =~= old(out)@ + fraction_text(rest as nat));
}

} // verus!

//! What holds of the engine as a whole: amounts read back as written,
//! payment hashes tell invoices apart, a lookup finds what was created,
//! settlement is final, a second scan changes nothing, and the checkpoint
//! waits for every transfer.

use crate::invoice::{
    attribute_key_text, hex_text, issued_invoice, lemma_hex_text_injective, InvoiceView,
};
use crate::piconero::{
    amount_text, fraction_text, group_char_ok, grouped, is_grouped, is_whole_part,
    lemma_pow10_positive, lemma_whole_value_push, parsed_amount, parsed_number, place_weight,
    point_index, saturated, scaled_fraction, stripped, unit_suffix, whole_value,
};
use crate::scanner::{
    base_requirement, checkpoint_height, confirmations_required, confirmations_seen, examine,
    is_locked, next_checkpoint, scan_start, scanned, settled_invoice,
    transfer_satisfies, ScanState, TransferHeight, TransferRecord,
};
use crate::text::{
    all_digits, decimal, digit_char, digit_value, digits_value, is_digit, lemma_decimal,
    lemma_padded, padded, pow10,
};
use vstd::prelude::*;

verus! {

// Amounts

/// Where `s` holds no decimal point from `from` up to `to` and one at `to`,
/// or ends there, the first point at or after `from` is at `to`.
pub proof fn lemma_point_index(s: Seq<char>, from: int, to: int)
    requires
        0 <= from <= to <= s.len(),
        forall|i: int| from <= i < to ==> #[trigger] s[i] != '.',
        to == s.len() || s[to] == '.',
    ensures
        point_index(s, from) == to,
    decreases to - from,
{
    if from < to {
        lemma_point_index(s, from + 1, to);
    }
}

/// The first decimal point lies within the text, with none before it.
pub proof fn lemma_point_index_bounds(s: Seq<char>, from: int)
    requires
        0 <= from <= s.len(),
    ensures
        from <= point_index(s, from) <= s.len(),
        forall|i: int| from <= i < point_index(s, from) ==> #[trigger] s[i] != '.',
        point_index(s, from) == s.len() || s[point_index(s, from)] == '.',
    decreases s.len() - from,
{
    if from < s.len() && s[from] != '.' {
        lemma_point_index_bounds(s, from + 1);
    }
}

/// Every text that reads as an amount starts with a digit, holds only
/// digits, commas and points before the unit, has a digit right before the
/// space, and ends in the space and the unit. So a text with a space, a
/// sign or anything else in front, with another unit or none, or with
/// anything after the unit is rejected.
pub proof fn lemma_amount_shape(s: Seq<char>)
    requires
        parsed_amount(s) is Some,
    ensures
        s.len() >= 5,
        s.skip(s.len() - 4) == unit_suffix(),
        is_digit(s[0]),
        is_digit(s[s.len() - 5]),
        forall|i: int|
            0 <= i < s.len() - 4 ==> is_digit(#[trigger] s[i]) || s[i] == '.' || s[i] == ',',
{
    let body = s.take(s.len() - 4);
    let k = point_index(body, 0);
    lemma_point_index_bounds(body, 0);
    let whole = body.take(k);
    assert(is_whole_part(whole));
    assert(whole.len() > 0);
    assert forall|i: int| 0 <= i < k implies is_digit(#[trigger] whole[i]) || whole[i]
        == ',' by {
        if !all_digits(whole) {
            assert(group_char_ok(whole, i));
        }
    }
    assert(is_digit(whole[0])) by {
        if !all_digits(whole) {
            assert(group_char_ok(whole, 0));
        }
    }
    assert(is_digit(whole.last())) by {
        if !all_digits(whole) {
            assert(group_char_ok(whole, whole.len() - 1));
        }
    }
    assert(whole[0] == s[0]);
    if k == body.len() {
        assert(whole.last() == s[s.len() - 5]);
    } else {
        let places = body.skip(k + 1);
        assert(places.last() == s[s.len() - 5]);
        assert(is_digit(places.last()));
    }
    assert forall|i: int| 0 <= i < s.len() - 4 implies is_digit(#[trigger] s[i]) || s[i] == '.'
        || s[i] == ',' by {
        assert(s[i] == body[i]);
        if i < k {
            assert(whole[i] == body[i]);
        } else if i > k {
            assert(body.skip(k + 1)[i - k - 1] == body[i]);
        }
    }
}

/// A number below a thousand has at most three digits.
pub proof fn lemma_short_decimal(n: nat)
    requires
        n < 1000,
    ensures
        1 <= decimal(n).len() <= 3,
{
    reveal_with_fuel(decimal, 3);
}

/// Among digits alone, what a whole part is worth is what the numeral
/// denotes.
pub proof fn lemma_whole_value_digits(s: Seq<char>)
    requires
        all_digits(s),
    ensures
        whole_value(s) == digits_value(s),
    decreases s.len(),
{
    if s.len() > 0 {
        lemma_whole_value_digits(s.drop_last());
    }
}

/// A group of three digits after a number multiplies it by a thousand and
/// adds what the group denotes.
pub proof fn lemma_whole_value_group(w: Seq<char>, r: nat)
    requires
        r < 1000,
    ensures
        whole_value(w + padded(r, 3)) == whole_value(w) * 1000 + r,
{
    let c2 = digit_char((r / 100) % 10);
    let c1 = digit_char((r / 10) % 10);
    let c0 = digit_char(r % 10);
    reveal_with_fuel(padded, 4);
    assert(padded(r, 3) =~= seq![c2, c1, c0]);
    assert(w + padded(r, 3) =~= w.push(c2).push(c1).push(c0));
    lemma_whole_value_push(w, c2);
    lemma_whole_value_push(w.push(c2), c1);
    lemma_whole_value_push(w.push(c2).push(c1), c0);
    assert(digit_value(c2) == (r / 100) % 10);
    assert(digit_value(c1) == (r / 10) % 10);
    assert(digit_value(c0) == r % 10);
}

/// A number in groups, as the display writes it, has a first group of one
/// to three digits and then groups of three, each after a comma.
pub proof fn lemma_grouped_shape(n: nat)
    ensures
        is_grouped(grouped(n)),
    decreases n,
{
    let g = grouped(n);
    if n < 1000 {
        lemma_short_decimal(n);
        lemma_decimal(n);
        assert forall|i: int| 0 <= i < g.len() implies #[trigger] group_char_ok(g, i) by {
            assert(is_digit(g[i]));
        }
    } else {
        let head = grouped(n / 1000);
        let group = padded(n % 1000, 3);
        lemma_grouped_shape(n / 1000);
        lemma_padded(n % 1000, 3);
        assert(g == head + seq![','] + group);
        assert(g.len() == head.len() + 4);
        assert forall|i: int| 0 <= i < g.len() implies #[trigger] group_char_ok(g, i) by {
            if i < head.len() {
                assert(g[i] == head[i]);
                assert(group_char_ok(head, i));
            } else if i == head.len() {
                assert(g[i] == ',');
            } else {
                assert(g[i] == group[i - head.len() - 1]);
                assert(is_digit(group[i - head.len() - 1]));
            }
        }
    }
}

/// A number in groups, as the display writes it, is worth that number.
pub proof fn lemma_grouped_value(n: nat)
    ensures
        whole_value(grouped(n)) == n,
    decreases n,
{
    if n < 1000 {
        lemma_decimal(n);
        lemma_whole_value_digits(decimal(n));
    } else {
        let head = grouped(n / 1000);
        lemma_grouped_value(n / 1000);
        lemma_whole_value_push(head, ',');
        lemma_whole_value_group(head.push(','), n % 1000);
        assert(grouped(n) =~= head.push(',') + padded(n % 1000, 3));
    }
}

/// Zeros at the end of the decimal places count nothing.
pub proof fn lemma_stripped(s: Seq<char>)
    requires
        all_digits(s),
    ensures
        all_digits(stripped(s)),
        scaled_fraction(stripped(s)) == scaled_fraction(s),
    decreases s.len(),
{
    if s.len() > 0 && s.last() == '0' {
        lemma_stripped(s.drop_last());
        let weight = place_weight((s.len() - 1) as nat);
        assert(digit_value(s.last()) == 0);
        assert(digit_value(s.last()) * weight == 0) by (nonlinear_arith)
            requires
                digit_value(s.last()) == 0,
        ;
    }
}

/// A field of at most twelve digits, read as decimal places, is worth its
/// number times the weight of its last place.
pub proof fn lemma_scaled_padded(n: nat, width: nat)
    requires
        width <= 12,
    ensures
        scaled_fraction(padded(n, width)) == (n % pow10(width)) * pow10((12 - width) as nat),
    decreases width,
{
    lemma_pow10_positive(width);
    if width == 0 {
        assert(pow10(0) == 1);
        assert(n % 1 == 0);
        assert(padded(n, width) =~= Seq::<char>::empty());
        assert((n % pow10(width)) * pow10(12) == 0) by (nonlinear_arith)
            requires
                n % pow10(width) == 0,
        ;
    } else {
        let less = (width - 1) as nat;
        let field = padded(n, width);
        let rest = pow10((12 - width) as nat);
        let high = (n / 10) % pow10(less);
        let low = n % 10;
        lemma_padded(n / 10, less);
        lemma_padded(n, width);
        lemma_scaled_padded(n / 10, less);
        lemma_pow10_positive(less);
        assert(field.drop_last() =~= padded(n / 10, less));
        assert(field.last() == digit_char(low));
        assert(digit_value(digit_char(low)) == low);
        assert(place_weight(less) == rest);
        assert(pow10((12 - less) as nat) == 10 * rest);
        assert(pow10(width) == 10 * pow10(less));
        assert(scaled_fraction(field) == scaled_fraction(field.drop_last()) + digit_value(
            field.last(),
        ) * place_weight((field.len() - 1) as nat));
        assert(scaled_fraction(field) == high * (10 * rest) + low * rest);
        vstd::arithmetic::div_mod::lemma_mod_breakdown(n as int, 10, pow10(less) as int);
        assert(n % pow10(width) == 10 * high + low);
        assert(high * (10 * rest) + low * rest == (10 * high + low) * rest) by (nonlinear_arith);
    }
}

/// The decimal places of a remainder below one XMR, as they are displayed,
/// are digits, at least one, and are worth that remainder.
pub proof fn lemma_fraction_places(rest: nat)
    requires
        0 < rest < 1_000_000_000_000,
    ensures
        all_digits(stripped(padded(rest, 12))),
        stripped(padded(rest, 12)).len() > 0,
        scaled_fraction(stripped(padded(rest, 12))) == rest,
{
    lemma_padded(rest, 12);
    lemma_stripped(padded(rest, 12));
    lemma_scaled_padded(rest, 12);
    assert(pow10(12) == 1_000_000_000_000) by {
        reveal_with_fuel(pow10, 13);
    }
    assert(pow10(0) == 1);
    assert(rest % pow10(12) == rest);
    assert((rest % pow10(12)) * pow10(0) == rest) by (nonlinear_arith)
        requires
            pow10(0) == 1,
            rest % pow10(12) == rest,
    ;
    if stripped(padded(rest, 12)).len() == 0 {
        assert(scaled_fraction(stripped(padded(rest, 12))) == 0);
    }
}

/// Every amount reads back from its display as the same number of
/// piconero.
pub proof fn lemma_amount_round_trip(v: u64)
    ensures
        parsed_amount(amount_text(v as nat)) == Some(v as nat),
{
    let count = (v / 1_000_000_000_000) as nat;
    let rest = (v % 1_000_000_000_000) as nat;
    let s = amount_text(v as nat);
    let whole = grouped(count);
    let number = whole + fraction_text(rest);
    let k = whole.len() as int;
    lemma_grouped_shape(count);
    lemma_grouped_value(count);
    assert(s == number + unit_suffix());
    assert(s.skip(s.len() - 4) =~= unit_suffix());
    assert(s.take(s.len() - 4) =~= number);
    assert forall|i: int| 0 <= i < k implies #[trigger] number[i] != '.' by {
        assert(number[i] == whole[i]);
        assert(group_char_ok(whole, i));
    }
    if rest == 0 {
        assert(number =~= whole);
        lemma_point_index(number, 0, k);
        assert(number.take(k) =~= whole);
        assert(parsed_number(number) == Some(count * 1_000_000_000_000));
    } else {
        let places = stripped(padded(rest, 12));
        lemma_fraction_places(rest);
        assert(number =~= whole + seq!['.'] + places);
        assert(number[k] == '.');
        lemma_point_index(number, 0, k);
        assert(number.take(k) =~= whole);
        assert(number.skip(k + 1) =~= places);
        assert(parsed_number(number) == Some(count * 1_000_000_000_000 + rest));
    }
}

/// Reading an amount, displaying it and reading the display gives the
/// amount that was read first, for every text that reads as an amount.
pub proof fn lemma_parse_format_parse(s: Seq<char>)
    requires
        parsed_amount(s) is Some,
    ensures
        parsed_amount(amount_text(saturated(parsed_amount(s)->0) as nat)) == Some(
            saturated(parsed_amount(s)->0) as nat,
        ),
{
    lemma_amount_round_trip(saturated(parsed_amount(s)->0));
}

// Payment hashes

/// Invoices at addresses whose bytes have different digests have different
/// payment hashes, and their addresses are kept under different attributes.
pub proof fn lemma_payment_hashes_differ(
    memo_a: Seq<char>,
    value_a: u64,
    address_a: Seq<char>,
    digest_a: Seq<u8>,
    memo_b: Seq<char>,
    value_b: u64,
    address_b: Seq<char>,
    digest_b: Seq<u8>,
)
    requires
        digest_a != digest_b,
    ensures
        issued_invoice(memo_a, value_a, address_a, digest_a).payment_hash != issued_invoice(
            memo_b,
            value_b,
            address_b,
            digest_b,
        ).payment_hash,
        attribute_key_text(hex_text(digest_a)) != attribute_key_text(hex_text(digest_b)),
{
    if hex_text(digest_a) == hex_text(digest_b) {
        lemma_hex_text_injective(digest_a, digest_b);
    }
    lemma_attribute_keys_differ(hex_text(digest_a), hex_text(digest_b));
}

/// Different payment hashes are kept under different attributes.
pub proof fn lemma_attribute_keys_differ(a: Seq<char>, b: Seq<char>)
    requires
        a != b,
    ensures
        attribute_key_text(a) != attribute_key_text(b),
{
    let prefix = crate::invoice::attribute_prefix();
    if attribute_key_text(a) == attribute_key_text(b) {
        assert(attribute_key_text(a).skip(prefix.len() as int) =~= a);
        assert(attribute_key_text(b).skip(prefix.len() as int) =~= b);
    }
}

// The wallet as a store of invoices

/// What the wallet holds of invoices: the label at each address, and the
/// attributes.
pub ghost struct WalletModel {
    /// The invoice in the label of each address, by the address bytes in
    /// hexadecimal.
    pub labels: Map<Seq<char>, InvoiceView>,
    /// The attributes by name.
    pub attributes: Map<Seq<char>, Seq<char>>,
}

/// The wallet after the invoice `invoice` was created at the address with
/// the bytes `address_bytes`: the label holds the invoice, and the attribute
/// of its payment hash holds the address.
pub open spec fn wallet_with_invoice(
    wallet: WalletModel,
    address_bytes: Seq<u8>,
    invoice: InvoiceView,
) -> WalletModel {
    WalletModel {
        labels: wallet.labels.insert(hex_text(address_bytes), invoice),
        attributes: wallet.attributes.insert(
            attribute_key_text(invoice.payment_hash),
            hex_text(address_bytes),
        ),
    }
}

/// The invoice that a lookup by the raw hash `r_hash` finds in the wallet:
/// the one in the label of the address that the attribute of the hash names.
pub open spec fn wallet_lookup(wallet: WalletModel, r_hash: Seq<u8>) -> Option<InvoiceView> {
    let key = attribute_key_text(hex_text(r_hash));
    if wallet.attributes.contains_key(key) && wallet.labels.contains_key(wallet.attributes[key]) {
        Some(wallet.labels[wallet.attributes[key]])
    } else {
        None
    }
}

/// A lookup by the hash of an invoice that was just created finds that
/// invoice: not settled, with the value and the memo that it was created
/// with.
pub proof fn lemma_lookup_after_create(
    wallet: WalletModel,
    memo: Seq<char>,
    value: u64,
    address: Seq<char>,
    address_bytes: Seq<u8>,
    digest: Seq<u8>,
)
    ensures
        wallet_lookup(
            wallet_with_invoice(
                wallet,
                address_bytes,
                issued_invoice(memo, value, address, digest),
            ),
            digest,
        ) == Some(issued_invoice(memo, value, address, digest)),
        !issued_invoice(memo, value, address, digest).is_settled,
        issued_invoice(memo, value, address, digest).value == value,
        issued_invoice(memo, value, address, digest).memo == memo,
{
}

// Scans

/// Whether `later` can come of `earlier` by scanning: the same addresses
/// carry invoices, each invoice asks for what it asked for, and one that
/// was settled is as it was.
pub open spec fn follows(earlier: Map<u32, InvoiceView>, later: Map<u32, InvoiceView>) -> bool {
    &&& forall|m: u32| earlier.contains_key(m) <==> later.contains_key(m)
    &&& forall|m: u32| #[trigger]
        earlier.contains_key(m) ==> {
            &&& later[m].value == earlier[m].value
            &&& later[m].memo == earlier[m].memo
            &&& later[m].payment_hash == earlier[m].payment_hash
            &&& later[m].payment_request == earlier[m].payment_request
            &&& (earlier[m].is_settled ==> later[m] == earlier[m])
        }
}

/// What `lemma_scanned_follows` says of a scan holds of each transfer.
pub proof fn lemma_examine_follows(st: ScanState, t: TransferRecord, tip: u64)
    ensures
        follows(st.labels, examine(st, t, tip).labels),
        examine(st, t, tip).resolved ==> st.resolved,
        examine(st, t, tip).written.len() >= st.written.len(),
{
}

/// Examining transfers never takes an invoice away, never changes what it
/// asks for, never touches a settled invoice, never takes a label off the
/// list of those to write, and never makes an unresolved scan resolved.
pub proof fn lemma_scanned_follows(st: ScanState, ts: Seq<TransferRecord>, tip: u64)
    ensures
        follows(st.labels, scanned(st, ts, tip).labels),
        scanned(st, ts, tip).resolved ==> st.resolved,
        scanned(st, ts, tip).written.len() >= st.written.len(),
    decreases ts.len(),
{
    if ts.len() > 0 {
        lemma_scanned_follows(st, ts.drop_last(), tip);
        lemma_examine_follows(scanned(st, ts.drop_last(), tip), ts.last(), tip);
    }
}

/// A scan of `ts` is a scan of its first `k` transfers and then of the rest.
pub proof fn lemma_scanned_split(st: ScanState, ts: Seq<TransferRecord>, tip: u64, k: int)
    requires
        0 <= k <= ts.len(),
    ensures
        scanned(st, ts, tip) == scanned(scanned(st, ts.take(k), tip), ts.skip(k), tip),
    decreases ts.len(),
{
    if k == ts.len() {
        assert(ts.take(k) =~= ts);
        assert(ts.skip(k) =~= Seq::<TransferRecord>::empty());
    } else {
        lemma_scanned_split(st, ts.drop_last(), tip, k);
        assert(ts.drop_last().take(k) =~= ts.take(k));
        assert(ts.drop_last().skip(k) =~= ts.skip(k).drop_last());
        assert(ts.skip(k).last() == ts.last());
    }
}

/// Once an invoice is settled, no scan unsettles it or changes it at all,
/// whatever transfers it sees at whatever height.
pub proof fn lemma_settlement_is_final(
    labels: Map<u32, InvoiceView>,
    ts: Seq<TransferRecord>,
    tip: u64,
    minor: u32,
)
    requires
        labels.contains_key(minor),
        labels[minor].is_settled,
    ensures
        scanned(scan_start(labels), ts, tip).labels.contains_key(minor),
        scanned(scan_start(labels), ts, tip).labels[minor] == labels[minor],
        scanned(scan_start(labels), ts, tip).labels[minor].is_settled,
{
    lemma_scanned_follows(scan_start(labels), ts, tip);
}

/// The second of two scans over the same transfers, as far as its first `k`
/// transfers: it has changed nothing and written nothing, and is resolved
/// as far as the first scan was at that point.
proof fn lemma_second_scan_prefix(
    labels: Map<u32, InvoiceView>,
    ts: Seq<TransferRecord>,
    tip: u64,
    k: int,
)
    requires
        0 <= k <= ts.len(),
    ensures
        scanned(
            scan_start(scanned(scan_start(labels), ts, tip).labels),
            ts.take(k),
            tip,
        ).labels == scanned(scan_start(labels), ts, tip).labels,
        scanned(
            scan_start(scanned(scan_start(labels), ts, tip).labels),
            ts.take(k),
            tip,
        ).written == Seq::<u32>::empty(),
        scanned(
            scan_start(scanned(scan_start(labels), ts, tip).labels),
            ts.take(k),
            tip,
        ).resolved == scanned(scan_start(labels), ts.take(k), tip).resolved,
    decreases k,
{
    let end = scanned(scan_start(labels), ts, tip).labels;
    if k == 0 {
        assert(ts.take(0) =~= Seq::<TransferRecord>::empty());
    } else {
        lemma_second_scan_prefix(labels, ts, tip, k - 1);
        let t = ts[k - 1];
        assert(ts.take(k).drop_last() =~= ts.take(k - 1));
        assert(ts.take(k).last() == t);
        let first_before = scanned(scan_start(labels), ts.take(k - 1), tip);
        let first_after = scanned(scan_start(labels), ts.take(k), tip);
        let second_before = scanned(scan_start(end), ts.take(k - 1), tip);
        assert(first_after == examine(first_before, t, tip));
        assert(scanned(scan_start(end), ts.take(k), tip) == examine(second_before, t, tip));
        lemma_scanned_split(scan_start(labels), ts, tip, k);
        lemma_scanned_follows(first_after, ts.skip(k), tip);
        lemma_examine_follows(first_before, t, tip);
        assert(follows(first_before.labels, first_after.labels));
        assert(follows(first_after.labels, end));
        let m = t.subaddr_minor;
        if end.contains_key(m) {
            assert(first_after.labels.contains_key(m));
            assert(first_before.labels.contains_key(m));
            assert(end[m].value == first_before.labels[m].value);
            if transfer_satisfies(t, tip, end[m].value) {
                assert(first_after.labels[m].is_settled);
                assert(end[m].is_settled);
            }
        } else {
            assert(!first_after.labels.contains_key(m));
            assert(!first_before.labels.contains_key(m));
        }
    }
}

/// A second scan over the same transfers changes no invoice, and so no
/// amount settled, writes no label, and is resolved if and only if the
/// first was.
pub proof fn lemma_scan_is_idempotent(
    labels: Map<u32, InvoiceView>,
    ts: Seq<TransferRecord>,
    tip: u64,
)
    ensures
        scanned(scan_start(scanned(scan_start(labels), ts, tip).labels), ts, tip).labels
            == scanned(scan_start(labels), ts, tip).labels,
        scanned(scan_start(scanned(scan_start(labels), ts, tip).labels), ts, tip).written
            == Seq::<u32>::empty(),
        scanned(scan_start(scanned(scan_start(labels), ts, tip).labels), ts, tip).resolved
            == scanned(scan_start(labels), ts, tip).resolved,
{
    lemma_second_scan_prefix(labels, ts, tip, ts.len() as int);
    assert(ts.take(ts.len() as int) =~= ts);
}

/// Whether the transfer is done with at the start of a scan over `labels`:
/// its address carries no invoice, or it satisfies the invoice there.
pub open spec fn is_resolved(labels: Map<u32, InvoiceView>, t: TransferRecord, tip: u64) -> bool {
    labels.contains_key(t.subaddr_minor) ==> transfer_satisfies(
        t,
        tip,
        labels[t.subaddr_minor].value,
    )
}

/// A scan as far as its first `k` transfers is resolved if and only if each
/// of them is done with.
proof fn lemma_resolved_prefix(
    labels: Map<u32, InvoiceView>,
    ts: Seq<TransferRecord>,
    tip: u64,
    k: int,
)
    requires
        0 <= k <= ts.len(),
    ensures
        scanned(scan_start(labels), ts.take(k), tip).resolved <==> forall|i: int|
            0 <= i < k ==> is_resolved(labels, #[trigger] ts[i], tip),
    decreases k,
{
    if k == 0 {
        assert(ts.take(0) =~= Seq::<TransferRecord>::empty());
    } else {
        lemma_resolved_prefix(labels, ts, tip, k - 1);
        let t = ts[k - 1];
        assert(ts.take(k).drop_last() =~= ts.take(k - 1));
        assert(ts.take(k).last() == t);
        let before = scanned(scan_start(labels), ts.take(k - 1), tip);
        lemma_scanned_follows(scan_start(labels), ts.take(k - 1), tip);
        assert(follows(labels, before.labels));
        let m = t.subaddr_minor;
        if labels.contains_key(m) {
            assert(before.labels.contains_key(m));
            assert(before.labels[m].value == labels[m].value);
        } else {
            assert(!before.labels.contains_key(m));
        }
        assert(examine(before, t, tip).resolved == (before.resolved && is_resolved(
            labels,
            t,
            tip,
        )));
        if forall|i: int| 0 <= i < k ==> is_resolved(labels, #[trigger] ts[i], tip) {
            assert(is_resolved(labels, ts[k - 1], tip));
        }
    }
}

/// The checkpoint moves after a scan if and only if every transfer in the
/// window is done with, and the tip is not below the checkpoint in force.
/// One transfer that still waits for confirmations or for its lock holds
/// the checkpoint back, whatever the others do.
pub proof fn lemma_checkpoint_holdback(
    labels: Map<u32, InvoiceView>,
    ts: Seq<TransferRecord>,
    tip: u64,
    checkpoint: Option<u64>,
)
    ensures
        next_checkpoint(scanned(scan_start(labels), ts, tip).resolved, checkpoint, tip)
            is Some <==> (tip >= checkpoint_height(checkpoint) && forall|i: int|
            0 <= i < ts.len() ==> is_resolved(labels, #[trigger] ts[i], tip)),
        next_checkpoint(scanned(scan_start(labels), ts, tip).resolved, checkpoint, tip)
            is Some ==> next_checkpoint(
            scanned(scan_start(labels), ts, tip).resolved,
            checkpoint,
            tip,
        ) == Some(tip),
{
    lemma_resolved_prefix(labels, ts, tip, ts.len() as int);
    assert(ts.take(ts.len() as int) =~= ts);
}

/// The checkpoint never moves back.
pub proof fn lemma_checkpoint_only_advances(resolved: bool, checkpoint: Option<u64>, tip: u64)
    ensures
        match next_checkpoint(resolved, checkpoint, tip) {
            Some(h) => h >= checkpoint_height(checkpoint),
            None => true,
        },
{
}

/// A transfer that settles its invoice in a scan leaves it settled with the
/// amount of the transfer, and every other invoice as it was.
pub proof fn lemma_examine_settles(labels: Map<u32, InvoiceView>, t: TransferRecord, tip: u64)
    requires
        labels.contains_key(t.subaddr_minor),
        !labels[t.subaddr_minor].is_settled,
        transfer_satisfies(t, tip, labels[t.subaddr_minor].value),
    ensures
        examine(scan_start(labels), t, tip).labels == labels.insert(
            t.subaddr_minor,
            settled_invoice(labels[t.subaddr_minor], t.amount),
        ),
        examine(scan_start(labels), t, tip).written == seq![t.subaddr_minor],
        examine(scan_start(labels), t, tip).resolved,
{
    assert(Seq::<u32>::empty().push(t.subaddr_minor) =~= seq![t.subaddr_minor]);
}

// Confirmation thresholds

/// A transfer that was seen spent twice and has no confirmation settles
/// nothing.
pub proof fn lemma_double_spend_needs_a_confirmation(t: TransferRecord, tip: u64, value: u64)
    requires
        t.double_spend_seen,
        confirmations_seen(t) == 0,
    ensures
        confirmations_required(t, tip) >= 1,
        !transfer_satisfies(t, tip, value),
{
}

/// While its lock lasts a transfer needs at least one confirmation, so one
/// without any settles nothing.
pub proof fn lemma_locked_transfer_waits(t: TransferRecord, tip: u64, value: u64)
    requires
        is_locked(t, tip),
    ensures
        confirmations_required(t, tip) >= 1,
        confirmations_seen(t) == 0 ==> !transfer_satisfies(t, tip, value),
{
}

/// A transfer in a block that was seen spent twice and is not locked
/// settles an invoice as soon as it has one confirmation and pays enough.
pub proof fn lemma_double_spend_confirmed(t: TransferRecord, tip: u64, value: u64)
    requires
        t.double_spend_seen,
        !is_locked(t, tip),
        t.height is Confirmed,
    ensures
        confirmations_required(t, tip) == 1,
        transfer_satisfies(t, tip, value) <==> (confirmations_seen(t) >= 1 && t.amount >= value),
{
}

/// A locked transfer in a block below its unlock height settles an invoice
/// if and only if it has as many confirmations as blocks lie between its
/// own height and the unlock height, and pays enough.
pub proof fn lemma_locked_transfer(t: TransferRecord, tip: u64, value: u64, height: u64)
    requires
        is_locked(t, tip),
        t.height == TransferHeight::Confirmed(height),
        height < t.unlock_time,
    ensures
        confirmations_required(t, tip) == t.unlock_time - height,
        transfer_satisfies(t, tip, value) <==> (confirmations_seen(t) >= t.unlock_time - height
            && t.amount >= value),
{
}

/// A transfer in the pool with a requirement above zero settles nothing:
/// what confirmations it shows are asked for on top.
pub proof fn lemma_pool_transfer_waits(t: TransferRecord, tip: u64, value: u64)
    requires
        t.height == TransferHeight::InPool,
        base_requirement(t, tip) > 0,
    ensures
        !transfer_satisfies(t, tip, value),
{
}

/// A transfer with nothing against it settles an invoice if and only if it
/// pays enough.
pub proof fn lemma_plain_transfer(t: TransferRecord, tip: u64, value: u64)
    requires
        !t.double_spend_seen,
        !is_locked(t, tip),
    ensures
        confirmations_required(t, tip) == 0,
        transfer_satisfies(t, tip, value) <==> t.amount >= value,
{
}

} // verus!

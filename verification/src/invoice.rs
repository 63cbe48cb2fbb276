//! Invoice records and how one is laid down in a wallet that knows only
//! addresses, labels and attributes.

use crate::piconero::{plain_text, Piconero};
use crate::text::digit_char;
use vstd::prelude::*;

verus! {

/// The lower-case hexadecimal digit for `n`, which is below sixteen.
pub open spec fn hex_digit(n: nat) -> char {
    if n < 10 {
        digit_char(n)
    } else {
        (n + 87) as u8 as char
    }
}

/// `bytes` in lower-case hexadecimal, two digits for each byte.
pub open spec fn hex_text(bytes: Seq<u8>) -> Seq<char>
    decreases bytes.len(),
{
    if bytes.len() == 0 {
        Seq::empty()
    } else {
        hex_text(bytes.drop_last()).push(hex_digit((bytes.last() / 16) as nat)).push(
            hex_digit((bytes.last() % 16) as nat),
        )
    }
}

/// The SHA-256 digest of `data`.
pub uninterp spec fn sha256_digest(data: Seq<u8>) -> Seq<u8>;

/// Writes bytes in hexadecimal. Trusted: `hex::encode` yields, for each byte
/// in order, the lower-case digit of its high half and then of its low half.
#[verifier::external_body]
fn hex_encode(bytes: &[u8]) -> (s: String)
    ensures
        s@ == hex_text(bytes@),
{
    hex::encode(bytes)
}

/// Hashes bytes. Trusted: `openssl::sha::sha256` returns the SHA-256 digest,
/// which depends on the data alone.
#[verifier::external_body]
fn sha256(data: &[u8]) -> (digest: [u8; 32])
    ensures
        digest@ == sha256_digest(data@),
{
    openssl::sha::sha256(data)
}

/// The prefix of a payment request.
pub open spec fn request_scheme() -> Seq<char> {
    "monero:"@
}

/// What stands before the amount in a payment request.
pub open spec fn request_amount_key() -> Seq<char> {
    "?tx_amount="@
}

/// What stands before the memo in a payment request.
pub open spec fn request_memo_key() -> Seq<char> {
    "&tx_description="@
}

/// The payment request for `value` piconero to `address`, with `memo`.
pub open spec fn payment_request_text(address: Seq<char>, value: u64, memo: Seq<char>) -> Seq<
    char,
> {
    request_scheme() + address + request_amount_key() + plain_text(value as nat)
        + request_memo_key() + memo
}

/// The prefix of the attribute under which an invoice's address is kept.
pub open spec fn attribute_prefix() -> Seq<char> {
    "inv_"@
}

/// The attribute under which the address of the invoice with this payment
/// hash is kept.
pub open spec fn attribute_key_text(payment_hash: Seq<char>) -> Seq<char> {
    attribute_prefix() + payment_hash
}

/// What an invoice holds, as plain values.
pub ghost struct InvoiceView {
    pub value: u64,
    pub amount_settled: u64,
    pub is_settled: bool,
    pub memo: Seq<char>,
    pub payment_hash: Seq<char>,
    pub payment_request: Seq<char>,
}

/// One payment request and its state.
#[derive(Debug)]
pub struct OpuzaInvoice {
    /// The amount asked for, in piconero.
    pub value: u64,
    /// The amount of the transfer that settled the invoice, in piconero.
    pub amount_settled: u64,
    /// Whether the invoice is paid. Once true it stays true.
    pub is_settled: bool,
    /// The description that the caller gave.
    pub memo: String,
    /// The key under which the invoice is looked up.
    pub payment_hash: String,
    /// What the payer's wallet reads.
    pub payment_request: String,
}

impl View for OpuzaInvoice {
    type V = InvoiceView;

    open spec fn view(&self) -> InvoiceView {
        InvoiceView {
            value: self.value,
            amount_settled: self.amount_settled,
            is_settled: self.is_settled,
            memo: self.memo@,
            payment_hash: self.payment_hash@,
            payment_request: self.payment_request@,
        }
    }
}

/// The invoice that holds nothing: no value, not settled, empty texts.
pub open spec fn empty_invoice() -> InvoiceView {
    InvoiceView {
        value: 0,
        amount_settled: 0,
        is_settled: false,
        memo: Seq::empty(),
        payment_hash: Seq::empty(),
        payment_request: Seq::empty(),
    }
}

/// The record that is laid down with a new address, before its hash and
/// request are known.
pub open spec fn pending_invoice(memo: Seq<char>, value: u64) -> InvoiceView {
    InvoiceView {
        value,
        amount_settled: 0,
        is_settled: false,
        memo,
        payment_hash: Seq::empty(),
        payment_request: Seq::empty(),
    }
}

/// The invoice for `value` piconero with `memo`, payable to the address
/// written `address` whose bytes have the digest `digest`.
pub open spec fn issued_invoice(
    memo: Seq<char>,
    value: u64,
    address: Seq<char>,
    digest: Seq<u8>,
) -> InvoiceView {
    InvoiceView {
        value,
        amount_settled: 0,
        is_settled: false,
        memo,
        payment_hash: hex_text(digest),
        payment_request: payment_request_text(address, value, memo),
    }
}

impl Default for OpuzaInvoice {
    fn default() -> (r: Self)
        ensures
            r@ == empty_invoice(),
    {
        OpuzaInvoice {
            value: 0,
            amount_settled: 0,
            is_settled: false,
            memo: String::new(),
            payment_hash: String::new(),
            payment_request: String::new(),
        }
    }
}

impl Clone for OpuzaInvoice {
    fn clone(&self) -> (r: Self)
        ensures
            r@ == self@,
    {
        OpuzaInvoice {
            value: self.value,
            amount_settled: self.amount_settled,
            is_settled: self.is_settled,
            memo: self.memo.clone(),
            payment_hash: self.payment_hash.clone(),
            payment_request: self.payment_request.clone(),
        }
    }
}

impl OpuzaInvoice {
    /// The invoice that holds nothing.
    pub fn new() -> (r: Self)
        ensures
            r@ == empty_invoice(),
    {
        OpuzaInvoice {
            value: 0,
            amount_settled: 0,
            is_settled: false,
            memo: String::new(),
            payment_hash: String::new(),
            payment_request: String::new(),
        }
    }

    /// The record for a new request, as it is laid down with the address
    /// that the wallet derives for it.
    pub fn pending(memo: &str, value: Piconero) -> (r: Self)
        ensures
            r@ == pending_invoice(memo@, value@),
    {
        OpuzaInvoice {
            value: value.value(),
            amount_settled: 0,
            is_settled: false,
            memo: memo.to_owned(),
            payment_hash: String::new(),
            payment_request: String::new(),
        }
    }

    /// The invoice for `value` with `memo`, once the wallet has derived the
    /// address written `address`, whose bytes are `address_bytes`. It is not
    /// settled, its payment hash is the hexadecimal SHA-256 digest of the
    /// address bytes, 64 characters long, and its payment request names
    /// address, amount and memo.
    pub fn issue(memo: &str, value: Piconero, address: &str, address_bytes: &[u8]) -> (r: Self)
        ensures
            r@ == issued_invoice(memo@, value@, address@, sha256_digest(address_bytes@)),
            r@.payment_hash.len() == 64,
    {
        let digest = sha256(address_bytes);
        proof {
            lemma_hex_text_len(digest@);
        }
        Self::issue_with_digest(memo, value, address, digest.as_slice())
    }

    /// The invoice for `value` with `memo`, payable to the address written
    /// `address`, where `digest` is the digest of the address bytes.
    pub fn issue_with_digest(memo: &str, value: Piconero, address: &str, digest: &[u8]) -> (r:
        Self)
        ensures
            r@ == issued_invoice(memo@, value@, address@, digest@),
    {
        OpuzaInvoice {
            value: value.value(),
            amount_settled: 0,
            is_settled: false,
            memo: memo.to_owned(),
            payment_hash: payment_hash_of_digest(digest),
            payment_request: payment_request(address, value, memo),
        }
    }
}

/// The payment hash that belongs to a digest: its hexadecimal form.
pub fn payment_hash_of_digest(digest: &[u8]) -> (hash: String)
    ensures
        hash@ == hex_text(digest@),
{
    hex_encode(digest)
}

/// The text that a payer's wallet reads: the address, the amount in XMR and
/// the memo.
pub fn payment_request(address: &str, value: Piconero, memo: &str) -> (request: String)
    ensures
        request@ == payment_request_text(address@, value@, memo@),
{
    let mut request = String::from_str("monero:");
    request.append(address);
    request.append("?tx_amount=");
    let amount = value.to_plain_string();
    request.append(amount.as_str());
    request.append("&tx_description=");
    request.append(memo);
    request
}

/// The attribute that keeps the address of the invoice with `payment_hash`.
pub fn attribute_key(payment_hash: &str) -> (key: String)
    ensures
        key@ == attribute_key_text(payment_hash@),
{
    let mut key = String::from_str("inv_");
    key.append(payment_hash);
    key
}

/// The attribute under which the invoice with the raw hash `r_hash` is
/// looked up.
pub fn lookup_key(r_hash: &[u8; 32]) -> (key: String)
    ensures
        key@ == attribute_key_text(hex_text(r_hash@)),
{
    let hash = hex_encode(r_hash.as_slice());
    attribute_key(hash.as_str())
}

/// The value of an invoice's attribute: the address bytes in hexadecimal.
pub fn attribute_value(address_bytes: &[u8]) -> (value: String)
    ensures
        value@ == hex_text(address_bytes@),
{
    hex_encode(address_bytes)
}

/// What the caller of invoice creation gets back.
#[derive(Debug)]
pub struct AddOpuzaInvoiceResponse {
    /// The key under which the new invoice is looked up.
    pub payment_hash: String,
}

impl Clone for AddOpuzaInvoiceResponse {
    fn clone(&self) -> (r: Self)
        ensures
            r.payment_hash@ == self.payment_hash@,
    {
        AddOpuzaInvoiceResponse { payment_hash: self.payment_hash.clone() }
    }
}

impl AddOpuzaInvoiceResponse {
    /// The response for the invoice at the address with these bytes: its
    /// payment hash is the hexadecimal SHA-256 digest of the bytes.
    pub fn from_address_bytes(address_bytes: &[u8]) -> (r: Self)
        ensures
            r.payment_hash@ == hex_text(sha256_digest(address_bytes@)),
            r.payment_hash@.len() == 64,
    {
        let digest = sha256(address_bytes);
        proof {
            lemma_hex_text_len(digest@);
        }
        AddOpuzaInvoiceResponse { payment_hash: payment_hash_of_digest(digest.as_slice()) }
    }
}

/// The text of the one error that the wallet node gives rise to.
pub open spec fn rpc_error_text() -> Seq<char> {
    "failed Monero node request"@
}

/// A request to the wallet node failed.
#[derive(Clone, Copy, Debug, PartialEq, Eq, Structural)]
pub struct OpuzaRpcError;

impl OpuzaRpcError {
    /// What went wrong, for the user.
    pub fn to_string(&self) -> (s: String)
        ensures
            s@ == rpc_error_text(),
    {
        String::from_str("failed Monero node request")
    }

    /// What went wrong, as a fixed text.
    pub fn description(&self) -> (s: &'static str)
        ensures
            s@ == rpc_error_text(),
    {
        "failed Monero node request"
    }
}

/// What came of one request to the wallet.
#[derive(Debug)]
pub enum WalletReply<T> {
    /// The wallet answered with a value.
    Value(T),
    /// The wallet answered that it holds nothing of the kind.
    Missing,
    /// The wallet did not answer: it is unreachable, busy, or timed out.
    Unreachable,
}

impl<T> WalletReply<T> {
    /// The value that a step cannot go on without: an answer that holds
    /// none, or no answer, is an error.
    pub fn required(self) -> (r: Result<T, OpuzaRpcError>)
        ensures
            match self {
                WalletReply::Value(v) => r == Ok::<T, OpuzaRpcError>(v),
                WalletReply::Missing => r == Err::<T, OpuzaRpcError>(OpuzaRpcError),
                WalletReply::Unreachable => r == Err::<T, OpuzaRpcError>(OpuzaRpcError),
            },
    {
        match self {
            WalletReply::Value(v) => Ok(v),
            WalletReply::Missing => Err(OpuzaRpcError),
            WalletReply::Unreachable => Err(OpuzaRpcError),
        }
    }
}

/// Whether the wallet is there, given what it said when asked for its
/// height: it is if and only if it named one.
pub fn ping_outcome(height: WalletReply<u64>) -> (r: Result<(), OpuzaRpcError>)
    ensures
        r is Ok <==> height is Value,
{
    match height {
        WalletReply::Value(_) => Ok(()),
        WalletReply::Missing => Err(OpuzaRpcError),
        WalletReply::Unreachable => Err(OpuzaRpcError),
    }
}

/// What creating an invoice writes to the wallet, and what it hands back.
#[derive(Debug)]
pub struct InvoicePlan {
    /// The invoice, to be written as the label of its address.
    pub invoice: OpuzaInvoice,
    /// The attribute that keeps the address.
    pub attribute_key: String,
    /// The address as the attribute holds it.
    pub attribute_value: String,
    /// What the caller gets back.
    pub response: AddOpuzaInvoiceResponse,
}

/// Plans the invoice for `value` with `memo` at the address that the wallet
/// derived for it, written `address` and with the bytes `address_bytes`: the
/// invoice as `OpuzaInvoice::issue` gives it, the attribute of its payment
/// hash with the address bytes in hexadecimal as its value, and the payment
/// hash for the caller.
pub fn plan_invoice(memo: &str, value: Piconero, address: &str, address_bytes: &[u8]) -> (plan:
    InvoicePlan)
    ensures
        plan.invoice@ == issued_invoice(memo@, value@, address@, sha256_digest(address_bytes@)),
        plan.invoice@.payment_hash.len() == 64,
        plan.attribute_key@ == attribute_key_text(plan.invoice@.payment_hash),
        plan.attribute_value@ == hex_text(address_bytes@),
        plan.response.payment_hash@ == plan.invoice@.payment_hash,
{
    let invoice = OpuzaInvoice::issue(memo, value, address, address_bytes);
    let attribute_key = attribute_key(invoice.payment_hash.as_str());
    let attribute_value = attribute_value(address_bytes);
    let response = AddOpuzaInvoiceResponse { payment_hash: invoice.payment_hash.clone() };
    InvoicePlan { invoice, attribute_key, attribute_value, response }
}

/// The result of looking an invoice up, given what the wallet said of the
/// label at the invoice's address. A label that reads as an invoice is that
/// invoice. One that does not, or an address or attribute that the wallet
/// does not know, means that there is no such invoice. A wallet that did not
/// answer is an error.
pub fn lookup_outcome(label: WalletReply<Option<OpuzaInvoice>>) -> (r: Result<
    Option<OpuzaInvoice>,
    OpuzaRpcError,
>)
    ensures
        match label {
            WalletReply::Value(Some(invoice)) => r == Ok::<Option<OpuzaInvoice>, OpuzaRpcError>(
                Some(invoice),
            ),
            WalletReply::Value(None) => r == Ok::<Option<OpuzaInvoice>, OpuzaRpcError>(None),
            WalletReply::Missing => r == Ok::<Option<OpuzaInvoice>, OpuzaRpcError>(None),
            WalletReply::Unreachable => r == Err::<Option<OpuzaInvoice>, OpuzaRpcError>(
                OpuzaRpcError,
            ),
        },
{
    match label {
        WalletReply::Value(found) => Ok(found),
        WalletReply::Missing => Ok(None),
        WalletReply::Unreachable => Err(OpuzaRpcError),
    }
}

/// Two different byte strings never read the same in hexadecimal.
pub proof fn lemma_hex_text_injective(a: Seq<u8>, b: Seq<u8>)
    requires
        hex_text(a) == hex_text(b),
    ensures
        a == b,
    decreases a.len(),
{
    lemma_hex_text_len(a);
    lemma_hex_text_len(b);
    if a.len() == 0 {
        assert(a =~= b);
    } else {
        let ta = hex_text(a.drop_last());
        let tb = hex_text(b.drop_last());
        let ha = hex_digit((a.last() / 16) as nat);
        let la = hex_digit((a.last() % 16) as nat);
        let hb = hex_digit((b.last() / 16) as nat);
        let lb = hex_digit((b.last() % 16) as nat);
        lemma_hex_text_len(a.drop_last());
        lemma_hex_text_len(b.drop_last());
        assert(hex_text(a) == ta.push(ha).push(la));
        assert(hex_text(b) == tb.push(hb).push(lb));
        assert(ta.push(ha).push(la).last() == la);
        assert(tb.push(hb).push(lb).last() == lb);
        assert(ta.push(ha).push(la).drop_last() =~= ta.push(ha));
        assert(tb.push(hb).push(lb).drop_last() =~= tb.push(hb));
        assert(ta.push(ha).last() == ha);
        assert(tb.push(hb).last() == hb);
        assert(ta.push(ha).drop_last() =~= ta);
        assert(tb.push(hb).drop_last() =~= tb);
        assert(la == lb);
        assert(ha == hb);
        assert(ta == tb);
        lemma_hex_digit_injective((a.last() / 16) as nat, (b.last() / 16) as nat);
        lemma_hex_digit_injective((a.last() % 16) as nat, (b.last() % 16) as nat);
        lemma_hex_text_injective(a.drop_last(), b.drop_last());
        assert(a.last() == b.last());
        assert(a =~= a.drop_last().push(a.last()));
        assert(b =~= b.drop_last().push(b.last()));
    }
}

/// The hexadecimal form of a byte string has two characters for each byte.
pub proof fn lemma_hex_text_len(a: Seq<u8>)
    ensures
        hex_text(a).len() == 2 * a.len(),
    decreases a.len(),
{
    if a.len() > 0 {
        lemma_hex_text_len(a.drop_last());
    }
}

/// Two different values below sixteen have different hexadecimal digits.
pub proof fn lemma_hex_digit_injective(m: nat, n: nat)
    requires
        m < 16,
        n < 16,
        hex_digit(m) == hex_digit(n),
    ensures
        m == n,
{
}

} // verus!

//! The settlement scanner: which incoming transfers settle which invoices,
//! and when the checkpoint may move.

use crate::invoice::{InvoiceView, OpuzaInvoice};
use vstd::prelude::*;

verus! {

/// The number of blocks below the checkpoint that each scan looks at again.
pub const SAFETY_MARGIN: u64 = 10;

/// The kinds of transfer that a wallet tells apart.
#[derive(Clone, Copy, Debug, PartialEq, Eq, Structural)]
pub enum TransferCategory {
    /// Received and in a block.
    In,
    /// Sent and in a block.
    Out,
    /// Sent and in no block yet.
    Pending,
    /// Sent and failed.
    Failed,
    /// Received and in no block yet.
    Pool,
    /// Received as the reward of a block.
    Block,
}

/// Whether a scan asks the wallet for transfers of this kind: it does for
/// those in a block, those pending and those in the pool.
pub open spec fn is_scanned(category: TransferCategory) -> bool {
    category == TransferCategory::In || category == TransferCategory::Pending || category
        == TransferCategory::Pool
}

impl TransferCategory {
    /// Whether a scan asks the wallet for transfers of this kind.
    pub fn is_scanned(&self) -> (r: bool)
        ensures
            r == is_scanned(*self),
    {
        match self {
            TransferCategory::In => true,
            TransferCategory::Pending => true,
            TransferCategory::Pool => true,
            _ => false,
        }
    }
}

/// Where a transfer stands in the chain.
#[derive(Clone, Copy, Debug, PartialEq, Eq, Structural)]
pub enum TransferHeight {
    /// In the block of this height.
    Confirmed(u64),
    /// In no block yet.
    InPool,
}

/// What the scanner reads of one incoming transfer.
#[derive(Clone, Copy, Debug)]
pub struct TransferRecord {
    /// The amount received, in piconero.
    pub amount: u64,
    /// The number of blocks on top of the transfer, where the wallet says.
    pub confirmations: Option<u64>,
    /// Whether the wallet has seen the same funds spent twice.
    pub double_spend_seen: bool,
    /// Where the transfer stands in the chain.
    pub height: TransferHeight,
    /// The height before which the funds cannot be spent, or zero.
    pub unlock_time: u64,
    /// The index of the receiving address in the wallet's first account.
    pub subaddr_minor: u32,
}

/// The confirmations that the transfer has: those the wallet reports, else
/// none.
pub open spec fn confirmations_seen(t: TransferRecord) -> int {
    match t.confirmations {
        Some(c) => c as int,
        None => 0,
    }
}

/// Whether the funds are still locked when the chain is `tip` high.
pub open spec fn is_locked(t: TransferRecord, tip: u64) -> bool {
    t.unlock_time > tip
}

/// The height from which a lock is counted: the transfer's own where it is
/// in a block, else the chain's.
pub open spec fn known_height(t: TransferRecord, tip: u64) -> int {
    match t.height {
        TransferHeight::Confirmed(h) => h as int,
        TransferHeight::InPool => tip as int,
    }
}

/// The confirmations asked of a transfer before its state in the pool is
/// looked at. Where there is a lock they are the blocks from the known
/// height up to the unlock height, or, where the known height is not below
/// the unlock height, the blocks that the chain still lacks to it: never
/// none while the lock lasts. Else one where a double spend was seen, else
/// none.
pub open spec fn base_requirement(t: TransferRecord, tip: u64) -> int {
    if is_locked(t, tip) {
        if t.unlock_time > known_height(t, tip) {
            t.unlock_time - known_height(t, tip)
        } else {
            t.unlock_time - tip
        }
    } else if t.double_spend_seen {
        1
    } else {
        0
    }
}

/// The confirmations that the transfer needs to settle an invoice. A
/// transfer still in the pool that already shows confirmations needs those
/// on top of a requirement above zero.
pub open spec fn confirmations_required(t: TransferRecord, tip: u64) -> int {
    let base = base_requirement(t, tip);
    if t.height == TransferHeight::InPool && base > 0 && confirmations_seen(t) > 0 {
        confirmations_seen(t) + base
    } else {
        base
    }
}

/// Whether the transfer settles an invoice for `value` piconero.
pub open spec fn transfer_satisfies(t: TransferRecord, tip: u64, value: u64) -> bool {
    confirmations_seen(t) >= confirmations_required(t, tip) && t.amount >= value
}

impl TransferRecord {
    /// The confirmations that the wallet reports, else none.
    pub fn confirmations_seen(&self) -> (c: u64)
        ensures
            c == confirmations_seen(*self),
    {
        match self.confirmations {
            Some(c) => c,
            None => 0,
        }
    }

    /// The confirmations that this transfer needs when the chain is `tip`
    /// high.
    pub fn required_confirmations(&self, tip: u64) -> (r: u128)
        ensures
            r == confirmations_required(*self, tip),
    {
        let mut required: u128 = 0;
        if self.double_spend_seen {
            required = 1;
        }
        if self.unlock_time > tip {
            let known: u64 = match self.height {
                TransferHeight::Confirmed(h) => h,
                TransferHeight::InPool => tip,
            };
            required = if self.unlock_time > known {
                (self.unlock_time - known) as u128
            } else {
                (self.unlock_time - tip) as u128
            };
        }
        let seen: u64 = self.confirmations_seen();
        let in_pool: bool = match self.height {
            TransferHeight::Confirmed(_) => false,
            TransferHeight::InPool => true,
        };
        if in_pool && required > 0 && seen > 0 {
            required = seen as u128 + required;
        }
        required
    }

    /// Whether this transfer settles an invoice for `value` piconero when
    /// the chain is `tip` high: it has the confirmations it needs and pays
    /// at least the value.
    pub fn satisfies(&self, tip: u64, value: u64) -> (r: bool)
        ensures
            r == transfer_satisfies(*self, tip, value),
    {
        let required: u128 = self.required_confirmations(tip);
        self.confirmations_seen() as u128 >= required && self.amount >= value
    }
}

/// The invoice `invoice`, settled by a transfer of `amount` piconero.
pub open spec fn settled_invoice(invoice: InvoiceView, amount: u64) -> InvoiceView {
    InvoiceView {
        value: invoice.value,
        amount_settled: amount,
        is_settled: true,
        memo: invoice.memo,
        payment_hash: invoice.payment_hash,
        payment_request: invoice.payment_request,
    }
}

/// The state of one scan: the invoices by the index of their address, the
/// addresses whose label has to be written, and whether every transfer so
/// far is done with.
pub ghost struct ScanState {
    pub labels: Map<u32, InvoiceView>,
    pub written: Seq<u32>,
    pub resolved: bool,
}

/// The state at the start of a scan over `labels`.
pub open spec fn scan_start(labels: Map<u32, InvoiceView>) -> ScanState {
    ScanState { labels, written: Seq::empty(), resolved: true }
}

/// What one transfer does to a scan. One to an address without an invoice
/// changes nothing. One that does not settle its invoice leaves the scan
/// unresolved. One that does settles the invoice and has its label written,
/// unless the invoice is settled already.
pub open spec fn examine(st: ScanState, t: TransferRecord, tip: u64) -> ScanState {
    if !st.labels.contains_key(t.subaddr_minor) {
        st
    } else {
        let invoice = st.labels[t.subaddr_minor];
        if !transfer_satisfies(t, tip, invoice.value) {
            ScanState { labels: st.labels, written: st.written, resolved: false }
        } else if invoice.is_settled {
            st
        } else {
            ScanState {
                labels: st.labels.insert(t.subaddr_minor, settled_invoice(invoice, t.amount)),
                written: st.written.push(t.subaddr_minor),
                resolved: st.resolved,
            }
        }
    }
}

/// The state after the transfers `ts` were examined in order.
pub open spec fn scanned(st: ScanState, ts: Seq<TransferRecord>, tip: u64) -> ScanState
    decreases ts.len(),
{
    if ts.len() == 0 {
        st
    } else {
        examine(scanned(st, ts.drop_last(), tip), ts.last(), tip)
    }
}

/// The checkpoint in force where the wallet holds `checkpoint`: none means
/// the start of the chain.
pub open spec fn checkpoint_height(checkpoint: Option<u64>) -> u64 {
    match checkpoint {
        Some(h) => h,
        None => 0,
    }
}

/// The height from which a scan asks for transfers: `margin` blocks below
/// the checkpoint, and not below the start of the chain.
pub open spec fn floor_height(checkpoint: Option<u64>, margin: u64) -> u64 {
    if checkpoint_height(checkpoint) >= margin {
        (checkpoint_height(checkpoint) - margin) as u64
    } else {
        0
    }
}

/// The checkpoint to write after a scan at height `tip`, if any: the tip,
/// where every transfer is done with and the tip is not below the
/// checkpoint in force.
pub open spec fn next_checkpoint(resolved: bool, checkpoint: Option<u64>, tip: u64) -> Option<
    u64,
> {
    if resolved && tip >= checkpoint_height(checkpoint) {
        Some(tip)
    } else {
        None
    }
}

/// The height from which a scan asks the wallet for transfers.
pub fn scan_floor(checkpoint: Option<u64>, margin: u64) -> (floor: u64)
    ensures
        floor == floor_height(checkpoint, margin),
{
    let height: u64 = match checkpoint {
        Some(h) => h,
        None => 0,
    };
    if height >= margin {
        height - margin
    } else {
        0
    }
}

/// An invoice and the index of the address that carries it.
#[derive(Debug)]
struct LedgerEntry {
    /// The index of the address in the wallet's first account.
    minor: u32,
    /// The invoice read from the label of that address.
    invoice: OpuzaInvoice,
}

/// The invoices that `entries` hold, by the index of their address. A later
/// entry for an address supersedes an earlier one.
spec fn entries_map(entries: Seq<LedgerEntry>) -> Map<u32, InvoiceView>
    decreases entries.len(),
{
    if entries.len() == 0 {
        Map::empty()
    } else {
        entries_map(entries.drop_last()).insert(entries.last().minor, entries.last().invoice@)
    }
}

/// The scanner's working copy of the invoices at the addresses that a scan
/// touches.
#[derive(Debug)]
pub struct Ledger {
    entries: Vec<LedgerEntry>,
}

impl View for Ledger {
    type V = Map<u32, InvoiceView>;

    closed spec fn view(&self) -> Map<u32, InvoiceView> {
        entries_map(self.entries@)
    }
}

/// What a scan found: which labels to write, and the checkpoint to write.
#[derive(Debug)]
pub struct ScanReport {
    /// The indices of the addresses whose invoice was settled, in the order
    /// of the transfers that settled them.
    pub settled: Vec<u32>,
    /// The new checkpoint, where it moves.
    pub checkpoint: Option<u64>,
}

impl ScanReport {
    /// The checkpoint to write once the labels of the report were dealt
    /// with: that of the report where every label was written, none where a
    /// write failed, so that the next scan looks at the same window again.
    pub fn checkpoint_after(&self, all_written: bool) -> (r: Option<u64>)
        ensures
            r == if all_written {
                self.checkpoint
            } else {
                None
            },
    {
        if all_written {
            self.checkpoint
        } else {
            None
        }
    }
}

impl Ledger {
    /// A ledger without invoices.
    pub fn new() -> (ledger: Ledger)
        ensures
            ledger@ == Map::<u32, InvoiceView>::empty(),
    {
        Ledger { entries: Vec::new() }
    }

    /// Records `invoice` as the one at the address with index `minor`, in
    /// place of any recorded there before.
    pub fn insert(&mut self, minor: u32, invoice: OpuzaInvoice)
        ensures
            final(self)@ == old(self)@.insert(minor, invoice@),
    {
        let ghost before = self.entries@;
        self.entries.push(LedgerEntry { minor, invoice });
        assert(self.entries@.drop_last() =~= before);
    }

    /// The place in `entries` of the invoice at `minor`, if there is one.
    fn position(&self, minor: u32) -> (r: Option<usize>)
        ensures
            match r {
                Some(i) => i < self.entries@.len() && self@.contains_key(minor) && self@[minor]
                    == self.entries@[i as int].invoice@,
                None => !self@.contains_key(minor),
            },
    {
        let mut i: usize = self.entries.len();
        assert(self.entries@.take(i as int) =~= self.entries@);
        while i > 0
            invariant
                i <= self.entries@.len(),
                self@.contains_key(minor) == entries_map(self.entries@.take(i as int)).contains_key(
                    minor,
                ),
                self@.contains_key(minor) ==> self@[minor] == entries_map(
                    self.entries@.take(i as int),
                )[minor],
            decreases i,
        {
            assert(self.entries@.take(i as int).drop_last() =~= self.entries@.take(i - 1));
            assert(self.entries@.take(i as int).last() == self.entries@[i - 1]);
            i = i - 1;
            if self.entries[i].minor == minor {
                return Some(i);
            }
        }
        None
    }

    /// Whether an invoice is recorded at the address with index `minor`.
    pub fn contains(&self, minor: u32) -> (r: bool)
        ensures
            r == self@.contains_key(minor),
    {
        self.position(minor).is_some()
    }

    /// The invoice recorded at the address with index `minor`.
    pub fn get(&self, minor: u32) -> (r: Option<&OpuzaInvoice>)
        ensures
            match r {
                Some(invoice) => self@.contains_key(minor) && self@[minor] == invoice@,
                None => !self@.contains_key(minor),
            },
    {
        match self.position(minor) {
            Some(i) => Some(&self.entries[i].invoice),
            None => None,
        }
    }

    /// Examines one transfer: settles the invoice at its address where the
    /// transfer satisfies it and it is not settled yet. Tells whether the
    /// label has to be written, and whether the transfer is done with.
    pub fn examine(&mut self, transfer: &TransferRecord, tip: u64) -> (r: (bool, bool))
        ensures
            final(self)@ == examine(scan_start(old(self)@), *transfer, tip).labels,
            r.0 == (examine(scan_start(old(self)@), *transfer, tip).written.len() > 0),
            r.1 == examine(scan_start(old(self)@), *transfer, tip).resolved,
    {
        match self.position(transfer.subaddr_minor) {
            None => (false, true),
            Some(i) => {
                let found = &self.entries[i].invoice;
                if !transfer.satisfies(tip, found.value) {
                    (false, false)
                } else if found.is_settled {
                    (false, true)
                } else {
                    let mut settled = found.clone();
                    settled.is_settled = true;
                    settled.amount_settled = transfer.amount;
                    self.insert(transfer.subaddr_minor, settled);
                    (true, true)
                }
            },
        }
    }

    /// Runs one scan: examines the transfers in order against the invoices
    /// of this ledger, at chain height `tip` and with `checkpoint` in force.
    /// The report lists the addresses whose label has to be written. The
    /// checkpoint moves to the tip only where every transfer either settled
    /// its invoice, found it settled, or belongs to no invoice.
    pub fn scan(&mut self, transfers: &Vec<TransferRecord>, tip: u64, checkpoint: Option<u64>) -> (report:
        ScanReport)
        ensures
            final(self)@ == scanned(scan_start(old(self)@), transfers@, tip).labels,
            report.settled@ == scanned(scan_start(old(self)@), transfers@, tip).written,
            report.checkpoint == next_checkpoint(
                scanned(scan_start(old(self)@), transfers@, tip).resolved,
                checkpoint,
                tip,
            ),
    {
        let mut settled: Vec<u32> = Vec::new();
        let mut resolved: bool = true;
        let mut i: usize = 0;
        let ghost start = scan_start(self@);
        assert(transfers@.take(0) =~= Seq::<TransferRecord>::empty());
        while i < transfers.len()
            invariant
                i <= transfers.len(),
                start == scan_start(old(self)@),
                scanned(start, transfers@.take(i as int), tip) == (ScanState {
                    labels: self@,
                    written: settled@,
                    resolved,
                }),
            decreases transfers.len() - i,
        {
            let ghost before = scanned(start, transfers@.take(i as int), tip);
            let transfer = &transfers[i];
            let (write, done) = self.examine(transfer, tip);
            if write {
                settled.push(transfer.subaddr_minor);
            }
            if !done {
                resolved = false;
            }
            proof {
                assert(transfers@.take(i + 1).drop_last() =~= transfers@.take(i as int));
                assert(transfers@.take(i + 1).last() == *transfer);
                let after = examine(before, *transfer, tip);
                assert(scanned(start, transfers@.take(i + 1), tip) == after);
                assert(after.written =~= settled@);
            }
            i = i + 1;
        }
        assert(transfers@.take(i as int) =~= transfers@);
        let advance: Option<u64> = match checkpoint {
            Some(h) => if resolved && tip >= h {
                Some(tip)
            } else {
                None
            },
            None => if resolved {
                Some(tip)
            } else {
                None
            },
        };
        ScanReport { settled, checkpoint: advance }
    }
}

} // verus!

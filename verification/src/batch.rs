//! The batch assembler: accepted renewals are cut into batches that one
//! transaction can carry, and each batch is written out as calldata.

use crate::decimal::Decimal;
use crate::felt::Felt;
use crate::model::AcceptedRenewal;
use crate::natural::{high_word, lemma_be_value_bound, lemma_pow256_words, low_word, two_pow_256};
use vstd::prelude::*;

verus! {

/// The most renewals that one transaction may carry; more would go beyond the
/// steps that the ledger grants a transaction.
pub const MAX_BATCH_SIZE: usize = 400;

/// The name of the entry point that a batch is sent to.
pub const RENEWAL_ENTRY_POINT: &'static str = "batch_renew";

/// The number of batches that `n` renewals are cut into.
pub open spec fn batch_count(n: nat) -> nat {
    ((n + MAX_BATCH_SIZE - 1) / (MAX_BATCH_SIZE as int)) as nat
}

/// Where batch `i` of `n` renewals begins.
pub open spec fn batch_start(i: int) -> int {
    MAX_BATCH_SIZE as int * i
}

/// Where batch `i` of `n` renewals ends.
pub open spec fn batch_end(n: nat, i: int) -> int {
    if batch_start(i + 1) <= n {
        batch_start(i + 1)
    } else {
        n as int
    }
}

/// The batches, one after the other.
pub open spec fn joined<T>(batches: Seq<Seq<T>>) -> Seq<T>
    decreases batches.len(),
{
    if batches.len() == 0 {
        Seq::empty()
    } else {
        joined(batches.drop_last()) + batches.last()
    }
}

/// The integers that a sequence of field elements stands for.
pub open spec fn values(words: Seq<Felt>) -> Seq<nat> {
    Seq::new(words.len(), |i: int| words[i]@)
}

/// A column of a batch that holds one field element for each renewal.
#[derive(Clone, Copy, Debug, PartialEq, Eq, Structural)]
pub enum ElementColumn {
    /// The domains' identifiers.
    DomainId,
    /// The renewers' addresses.
    Renewer,
    /// The hashes of the owners' metadata.
    MetadataHash,
}

/// A column of a batch that holds one amount for each renewal.
#[derive(Clone, Copy, Debug, PartialEq, Eq, Structural)]
pub enum AmountColumn {
    /// The prices before tax.
    BasePrice,
    /// The taxes.
    Tax,
}

/// A renewal's entry in a column of field elements.
pub open spec fn element_of(renewal: AcceptedRenewal, column: ElementColumn) -> nat {
    match column {
        ElementColumn::DomainId => renewal.domain_id@,
        ElementColumn::Renewer => renewal.renewer_address@,
        ElementColumn::MetadataHash => renewal.metadata_hash@,
    }
}

/// A renewal's entry in a column of amounts: the whole part of the amount,
/// which is what the ledger is given.
pub open spec fn amount_of(renewal: AcceptedRenewal, column: AmountColumn) -> nat {
    match column {
        AmountColumn::BasePrice => renewal.base_price.whole(),
        AmountColumn::Tax => renewal.tax_amount.whole(),
    }
}

/// A column of field elements, written out.
pub open spec fn element_column(entries: Seq<AcceptedRenewal>, column: ElementColumn) -> Seq<nat> {
    Seq::new(entries.len(), |i: int| element_of(entries[i], column))
}

/// A column of amounts, written out: for each amount its low 128 bits, then
/// its high 128 bits.
pub open spec fn amount_column(entries: Seq<AcceptedRenewal>, column: AmountColumn) -> Seq<nat> {
    Seq::new(
        2 * entries.len(),
        |j: int|
            if j % 2 == 0 {
                low_word(amount_of(entries[j / 2], column))
            } else {
                high_word(amount_of(entries[j / 2], column))
            },
    )
}

/// Whether every amount of the renewals fits in 256 bits.
pub open spec fn encodable(entries: Seq<AcceptedRenewal>) -> bool {
    forall|i: int, column: AmountColumn|
        0 <= i < entries.len() ==> #[trigger] amount_of(entries[i], column) < two_pow_256()
}

/// A renewal whose price is a field element's integer, and whose tax is at
/// most a hundred percent of the price, has amounts that fit in 256 bits: the
/// renewals that the evaluator accepts under such a rate can always be written
/// out as calldata.
pub proof fn lemma_priced_renewal_is_encodable(renewal: AcceptedRenewal, price: Felt, percent: nat)
    requires
        renewal.base_price.hundredths() == 100 * price@,
        renewal.tax_amount.hundredths() == price@ * percent,
        percent <= 100,
    ensures
        amount_of(renewal, AmountColumn::BasePrice) == price@,
        amount_of(renewal, AmountColumn::Tax) <= price@,
        forall|column: AmountColumn| #[trigger] amount_of(renewal, column) < two_pow_256(),
{
    lemma_be_value_bound(price.bytes@);
    lemma_pow256_words();
    let p: nat = price@;
    assert(p * percent <= 100 * p) by (nonlinear_arith)
        requires
            percent <= 100,
    ;
    assert forall|column: AmountColumn| #[trigger] amount_of(renewal, column) < two_pow_256() by {
        match column {
            AmountColumn::BasePrice => {},
            AmountColumn::Tax => {},
        }
    }
}

/// The calldata of a batch: five columns, each behind the count of the
/// renewals. The columns are the domain identifiers, the renewers' addresses,
/// the prices, the taxes and the metadata hashes.
pub open spec fn calldata_of(entries: Seq<AcceptedRenewal>) -> Seq<nat> {
    let count = seq![entries.len()];
    count + element_column(entries, ElementColumn::DomainId) + count + element_column(
        entries,
        ElementColumn::Renewer,
    ) + count + amount_column(entries, AmountColumn::BasePrice) + count + amount_column(
        entries,
        AmountColumn::Tax,
    ) + count + element_column(entries, ElementColumn::MetadataHash)
}

/// An ordered group of accepted renewals that one transaction carries.
#[derive(Debug)]
pub struct RenewalBatch {
    entries: Vec<AcceptedRenewal>,
}

impl View for RenewalBatch {
    type V = Seq<AcceptedRenewal>;

    /// The renewals of the batch, in their order.
    closed spec fn view(&self) -> Seq<AcceptedRenewal> {
        self.entries@
    }
}

impl RenewalBatch {
    /// A batch holds at least one renewal and at most [`MAX_BATCH_SIZE`].
    #[verifier::type_invariant]
    pub open spec fn wf(&self) -> bool {
        0 < self@.len() <= MAX_BATCH_SIZE
    }

    /// The batch of the given renewals, or `None` where they are none or too
    /// many for one batch.
    pub fn new(entries: Vec<AcceptedRenewal>) -> (r: Option<RenewalBatch>)
        ensures
            match r {
                Some(batch) => batch@ == entries@ && batch.wf(),
                None => entries@.len() == 0 || entries@.len() > MAX_BATCH_SIZE,
            },
    {
        if entries.len() == 0 || entries.len() > MAX_BATCH_SIZE {
            None
        } else {
            Some(RenewalBatch { entries })
        }
    }

    /// The number of renewals in the batch.
    pub fn len(&self) -> (n: usize)
        ensures
            n == self@.len(),
            0 < n <= MAX_BATCH_SIZE,
    {
        proof {
            use_type_invariant(self);
        }
        self.entries.len()
    }

    /// The renewals of the batch.
    pub fn entries(&self) -> (r: &Vec<AcceptedRenewal>)
        ensures
            r@ == self@,
    {
        &self.entries
    }

    /// The identifiers of the domains in the batch.
    pub fn domain_ids(&self) -> (r: Vec<Felt>)
        ensures
            values(r@) == element_column(self@, ElementColumn::DomainId),
    {
        let mut ids: Vec<Felt> = Vec::new();
        push_elements(&mut ids, &self.entries, ElementColumn::DomainId);
        assert(values(ids@) =~= Seq::<nat>::empty() + element_column(
            self@,
            ElementColumn::DomainId,
        ));
        ids
    }

    /// The calldata of the batch, or `None` where an amount in it does not
    /// fit in 256 bits.
    pub fn calldata(&self) -> (r: Option<Vec<Felt>>)
        ensures
            match r {
                Some(words) => encodable(self@) && values(words@) == calldata_of(self@),
                None => !encodable(self@),
            },
    {
        let n: usize = self.len();
        let mut words: Vec<Felt> = Vec::new();
        push_count(&mut words, n);
        push_elements(&mut words, &self.entries, ElementColumn::DomainId);
        push_count(&mut words, n);
        push_elements(&mut words, &self.entries, ElementColumn::Renewer);
        push_count(&mut words, n);
        if !push_amounts(&mut words, &self.entries, AmountColumn::BasePrice) {
            return None;
        }
        push_count(&mut words, n);
        if !push_amounts(&mut words, &self.entries, AmountColumn::Tax) {
            return None;
        }
        push_count(&mut words, n);
        push_elements(&mut words, &self.entries, ElementColumn::MetadataHash);
        proof {
            assert(values(Seq::<Felt>::empty()) =~= Seq::<nat>::empty());
            assert(values(words@) =~= calldata_of(self@));
            assert forall|i: int, column: AmountColumn| 0 <= i < self@.len() implies #[trigger] amount_of(
                self@[i],
                column,
            ) < two_pow_256() by {
                match column {
                    AmountColumn::BasePrice => {},
                    AmountColumn::Tax => {},
                }
            }
        }
        Some(words)
    }
}

/// Writes the count `n` behind `words`.
fn push_count(words: &mut Vec<Felt>, n: usize)
    ensures
        values(final(words)@) == values(old(words)@).push(n as nat),
{
    words.push(Felt::from_count(n));
    assert(values(words@) =~= values(old(words)@).push(n as nat));
}

/// Writes a column of field elements behind `words`.
fn push_elements(words: &mut Vec<Felt>, entries: &Vec<AcceptedRenewal>, column: ElementColumn)
    ensures
        values(final(words)@) == values(old(words)@) + element_column(entries@, column),
{
    let mut i: usize = 0;
    assert(values(words@) =~= values(old(words)@) + element_column(entries@, column).subrange(
        0,
        0,
    ));
    while i < entries.len()
        invariant
            i <= entries@.len(),
            values(words@) == values(old(words)@) + element_column(entries@, column).subrange(
                0,
                i as int,
            ),
        decreases entries@.len() - i,
    {
        let ghost before = words@;
        let element: Felt = match column {
            ElementColumn::DomainId => entries[i].domain_id,
            ElementColumn::Renewer => entries[i].renewer_address,
            ElementColumn::MetadataHash => entries[i].metadata_hash,
        };
        words.push(element);
        i += 1;
        proof {
            assert(element@ == element_of(entries@[i - 1], column));
            assert(values(words@) =~= values(before).push(element@));
            assert(element_column(entries@, column).subrange(0, i as int) =~= element_column(
                entries@,
                column,
            ).subrange(0, i - 1).push(element@));
            assert(values(words@) =~= values(old(words)@) + element_column(
                entries@,
                column,
            ).subrange(0, i as int));
        }
    }
    assert(element_column(entries@, column).subrange(0, i as int) =~= element_column(
        entries@,
        column,
    ));
}

/// Writes a column of amounts behind `words` and says whether every amount of
/// the column fits in 256 bits. Where one does not, `words` is left with a part
/// of the column.
fn push_amounts(words: &mut Vec<Felt>, entries: &Vec<AcceptedRenewal>, column: AmountColumn) -> (r:
    bool)
    ensures
        r == (forall|i: int| 0 <= i < entries@.len() ==> amount_of(#[trigger] entries@[i], column)
            < two_pow_256()),
        r ==> values(final(words)@) == values(old(words)@) + amount_column(entries@, column),
{
    let mut i: usize = 0;
    assert(values(words@) =~= values(old(words)@) + amount_column(entries@, column).subrange(
        0,
        0,
    ));
    while i < entries.len()
        invariant
            i <= entries@.len(),
            forall|k: int| 0 <= k < i ==> amount_of(#[trigger] entries@[k], column) < two_pow_256(),
            values(words@) == values(old(words)@) + amount_column(entries@, column).subrange(
                0,
                2 * i,
            ),
        decreases entries@.len() - i,
    {
        let ghost before = words@;
        let amount: &Decimal = match column {
            AmountColumn::BasePrice => &entries[i].base_price,
            AmountColumn::Tax => &entries[i].tax_amount,
        };
        let (low, high) = match amount.to_uint256() {
            Some(pair) => pair,
            None => {
                assert(amount_of(entries@[i as int], column) >= two_pow_256());
                return false;
            },
        };
        words.push(low);
        words.push(high);
        i += 1;
        proof {
            let whole = amount_of(entries@[i - 1], column);
            assert(low@ == low_word(whole));
            assert(high@ == high_word(whole));
            assert(values(words@) =~= values(before).push(low@).push(high@));
            let written = amount_column(entries@, column);
            assert(written[2 * (i - 1)] == low@);
            assert(written[2 * (i - 1) + 1] == high@);
            assert(written.subrange(0, 2 * i) =~= written.subrange(0, 2 * (i - 1)).push(low@).push(
                high@,
            ));
            assert(values(words@) =~= values(old(words)@) + written.subrange(0, 2 * i));
        }
    }
    assert(amount_column(entries@, column).subrange(0, 2 * i) =~= amount_column(entries@, column));
    true
}

/// Cuts the accepted renewals into batches of [`MAX_BATCH_SIZE`], the last one
/// with what is left, in the order in which they came.
pub fn assemble(accepted: Vec<AcceptedRenewal>) -> (batches: Vec<RenewalBatch>)
    ensures
        batches@.len() == batch_count(accepted@.len()),
        forall|i: int|
            0 <= i < batches@.len() ==> (#[trigger] batches@[i])@ == accepted@.subrange(
                batch_start(i),
                batch_end(accepted@.len(), i),
            ),
{
    let ghost all = accepted@;
    let ghost n = accepted@.len();
    let mut rest: Vec<AcceptedRenewal> = accepted;
    let mut batches: Vec<RenewalBatch> = Vec::new();
    let ghost mut consumed: int = 0;
    assert(rest@ =~= all.subrange(0, n as int));
    while rest.len() > 0
        invariant
            all == accepted@,
            n == all.len(),
            0 <= consumed <= n,
            rest@ == all.subrange(consumed, n as int),
            rest@.len() > 0 ==> consumed == batch_start(batches@.len() as int),
            batches@.len() == batch_count(consumed as nat),
            forall|i: int|
                0 <= i < batches@.len() ==> (#[trigger] batches@[i])@ == all.subrange(
                    batch_start(i),
                    batch_end(n, i),
                ),
        decreases rest@.len(),
    {
        let ghost done = batches@.len() as int;
        let size: usize = if rest.len() > MAX_BATCH_SIZE { MAX_BATCH_SIZE } else { rest.len() };
        let tail: Vec<AcceptedRenewal> = rest.split_off(size);
        let batch = RenewalBatch { entries: rest };
        proof {
            assert(batch@ =~= all.subrange(consumed, consumed + size));
            assert(tail@ =~= all.subrange(consumed + size, n as int));
            assert(batch_end(n, done) == consumed + size);
            assert(batch_count((consumed + size) as nat) == done + 1) by (nonlinear_arith)
                requires
                    consumed == 400 * done,
                    0 < size <= 400,
                    done >= 0,
                    batch_count((consumed + size) as nat) == (consumed + size + 399) / 400,
            ;
            consumed = consumed + size;
        }
        batches.push(batch);
        rest = tail;
    }
    batches
}

/// The batches that [`assemble`] cuts hold every renewal once, in the order
/// in which they came: put one after the other they are the accepted renewals
/// again. No batch is empty or longer than [`MAX_BATCH_SIZE`], and all but the
/// last are full.
pub proof fn lemma_batches_partition<T>(all: Seq<T>, batches: Seq<Seq<T>>)
    requires
        batches.len() == batch_count(all.len()),
        forall|i: int|
            0 <= i < batches.len() ==> #[trigger] batches[i] == all.subrange(
                batch_start(i),
                batch_end(all.len(), i),
            ),
    ensures
        joined(batches) == all,
        forall|i: int| 0 <= i < batches.len() ==> 0 < (#[trigger] batches[i]).len() <= MAX_BATCH_SIZE,
        forall|i: int|
            0 <= i < batches.len() - 1 ==> (#[trigger] batches[i]).len() == MAX_BATCH_SIZE,
{
    let n = all.len() as int;
    let count = batches.len() as int;
    lemma_batch_count(all.len());
    assert forall|i: int| 0 <= i < count implies 0 < (#[trigger] batches[i]).len() <= MAX_BATCH_SIZE
        && (i < count - 1 ==> batches[i].len() == MAX_BATCH_SIZE) by {
        lemma_batch_bounds(all.len(), i);
    }
    lemma_joined_prefix(all, batches, count);
    if count > 0 {
        lemma_batch_bounds(all.len(), count - 1);
    }
    assert(all.subrange(0, n) =~= all);
    assert(batches.take(count) =~= batches);
}

/// `n` renewals fill all batches but the last, which holds between one and
/// [`MAX_BATCH_SIZE`] of them.
proof fn lemma_batch_count(n: nat)
    ensures
        n == 0 ==> batch_count(n) == 0,
        n > 0 ==> batch_start(batch_count(n) - 1) < n <= batch_start(batch_count(n) as int),
{
    let count = batch_count(n) as int;
    assert(n > 0 ==> 400 * (count - 1) < n <= 400 * count) by (nonlinear_arith)
        requires
            count == (n + 399) / 400,
    ;
}

/// Where batch `i` of `n` renewals begins and ends.
proof fn lemma_batch_bounds(n: nat, i: int)
    requires
        0 <= i < batch_count(n),
    ensures
        0 <= batch_start(i) < batch_end(n, i) <= n,
        batch_end(n, i) - batch_start(i) <= MAX_BATCH_SIZE,
        i < batch_count(n) - 1 ==> batch_end(n, i) == batch_start(i + 1),
        i == batch_count(n) - 1 ==> batch_end(n, i) == n,
{
    lemma_batch_count(n);
    let count = batch_count(n) as int;
    assert(400 * i <= 400 * (count - 1) && (i < count - 1 ==> 400 * (i + 1) <= 400 * (count - 1)))
        by (nonlinear_arith)
        requires
            0 <= i <= count - 1,
    ;
}

/// The first `k` batches, put one after the other, are the renewals up to the
/// end of batch `k - 1`.
proof fn lemma_joined_prefix<T>(all: Seq<T>, batches: Seq<Seq<T>>, k: int)
    requires
        batches.len() == batch_count(all.len()),
        0 <= k <= batches.len(),
        forall|i: int|
            0 <= i < batches.len() ==> #[trigger] batches[i] == all.subrange(
                batch_start(i),
                batch_end(all.len(), i),
            ),
    ensures
        joined(batches.take(k)) == all.subrange(
            0,
            if k == 0 {
                0
            } else {
                batch_end(all.len(), k - 1)
            },
        ),
    decreases k,
{
    if k == 0 {
        assert(batches.take(0) =~= Seq::<Seq<T>>::empty());
        assert(all.subrange(0, 0) =~= Seq::<T>::empty());
    } else {
        lemma_joined_prefix(all, batches, k - 1);
        assert(batches.take(k).drop_last() =~= batches.take(k - 1));
        assert(batches.take(k).last() == batches[k - 1]);
        lemma_batch_bounds(all.len(), k - 1);
        let from = batch_start(k - 1);
        let to = batch_end(all.len(), k - 1);
        if k - 1 > 0 {
            lemma_batch_bounds(all.len(), k - 2);
        }
        assert(all.subrange(0, from) + all.subrange(from, to) =~= all.subrange(0, to));
    }
}

} // verus!

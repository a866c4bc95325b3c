//! The persisted layout of a subscription record: a stable, versionless
//! schema, fields in a fixed order, counts and integers little-endian.
//!
//! Layout, for a record with `n` owners (`n` at most
//! [`MAX_OWNER_LIMIT`]):
//! the 32-byte value-type reference; the owner count as four bytes and
//! `n` 32-byte owner addresses; the count again and `n` one-byte shares;
//! the count again and `n` eight-byte withdrawn amounts; then
//! `total_paid`, `price`, `period_duration` and `paid_until`, eight
//! bytes each.  A record therefore serializes to `76 + 41 * n` bytes,
//! and a fixed-capacity allocation of [`MAX_SUBSCRIPTION_SIZE`] bytes
//! holds any owner count within the cap without resizing; decoding
//! ignores the padding behind the encoded prefix.

use vstd::bytes::{
    spec_u32_from_le_bytes, spec_u32_to_le_bytes, spec_u64_from_le_bytes, spec_u64_to_le_bytes,
    u32_from_le_bytes, u32_to_le_bytes, u64_from_le_bytes, u64_to_le_bytes,
};
use vstd::prelude::*;
use vstd::slice::slice_subrange;

use crate::errors::SubscriptionError;
use crate::identity::Address;
use crate::processor::{OwnerEntry, OwnerView, RecordView, SubscriptionData, MAX_OWNER_LIMIT};

verus! {

/// The size in bytes of a serialized record holding the maximum owner
/// count: enough for any record within the capacity limit.
pub const MAX_SUBSCRIPTION_SIZE: usize = 76 + 41 * MAX_OWNER_LIMIT;

/// The exact size in bytes of a serialized record with `owner_count`
/// owners.
pub open spec fn spec_record_size(owner_count: int) -> int {
    76 + 41 * owner_count
}

/// The owner-address region: each owner's 32-byte address in order.
pub open spec fn addresses_bytes(owners: Seq<OwnerView>) -> Seq<u8>
    decreases owners.len(),
{
    if owners.len() == 0 {
        Seq::empty()
    } else {
        owners[0].address + addresses_bytes(owners.drop_first())
    }
}

/// The share region: each owner's one-byte share in order.
pub open spec fn shares_bytes(owners: Seq<OwnerView>) -> Seq<u8> {
    owners.map_values(|o: OwnerView| o.share)
}

/// The withdrawn region: each owner's withdrawn amount, eight bytes
/// little-endian, in order.
pub open spec fn withdrawn_bytes(owners: Seq<OwnerView>) -> Seq<u8>
    decreases owners.len(),
{
    if owners.len() == 0 {
        Seq::empty()
    } else {
        spec_u64_to_le_bytes(owners[0].withdrawn) + withdrawn_bytes(owners.drop_first())
    }
}

/// The serialized form of a record.
pub open spec fn spec_serialize_record(r: RecordView) -> Seq<u8> {
    r.token_mint + spec_u32_to_le_bytes(r.owners.len() as u32) + addresses_bytes(r.owners)
        + spec_u32_to_le_bytes(r.owners.len() as u32) + shares_bytes(r.owners)
        + spec_u32_to_le_bytes(r.owners.len() as u32) + withdrawn_bytes(r.owners)
        + spec_u64_to_le_bytes(r.total_paid) + spec_u64_to_le_bytes(r.price)
        + spec_u64_to_le_bytes(r.period_duration) + spec_u64_to_le_bytes(r.paid_until as u64)
}

proof fn lemma_addresses_bytes_push(owners: Seq<OwnerView>, o: OwnerView)
    ensures
        addresses_bytes(owners.push(o)) == addresses_bytes(owners) + o.address,
    decreases owners.len(),
{
    let pushed = owners.push(o);
    assert(pushed[0] == if owners.len() == 0 { o } else { owners[0] });
    if owners.len() == 0 {
        assert(pushed.drop_first() =~= Seq::<OwnerView>::empty());
        assert(addresses_bytes(Seq::<OwnerView>::empty()) == Seq::<u8>::empty());
        assert(addresses_bytes(pushed) == o.address + Seq::<u8>::empty());
        assert(o.address + Seq::<u8>::empty() =~= Seq::<u8>::empty() + o.address);
    } else {
        lemma_addresses_bytes_push(owners.drop_first(), o);
        assert(pushed.drop_first() =~= owners.drop_first().push(o));
        assert(addresses_bytes(pushed) == owners[0].address + (addresses_bytes(owners.drop_first())
            + o.address));
        assert(owners[0].address + (addresses_bytes(owners.drop_first()) + o.address) =~= (
        owners[0].address + addresses_bytes(owners.drop_first())) + o.address);
    }
}

proof fn lemma_withdrawn_bytes_push(owners: Seq<OwnerView>, o: OwnerView)
    ensures
        withdrawn_bytes(owners.push(o)) == withdrawn_bytes(owners) + spec_u64_to_le_bytes(
            o.withdrawn,
        ),
    decreases owners.len(),
{
    let pushed = owners.push(o);
    assert(pushed[0] == if owners.len() == 0 { o } else { owners[0] });
    if owners.len() == 0 {
        assert(pushed.drop_first() =~= Seq::<OwnerView>::empty());
        assert(withdrawn_bytes(Seq::<OwnerView>::empty()) == Seq::<u8>::empty());
        assert(withdrawn_bytes(pushed) == spec_u64_to_le_bytes(o.withdrawn) + Seq::<u8>::empty());
        assert(spec_u64_to_le_bytes(o.withdrawn) + Seq::<u8>::empty() =~= Seq::<u8>::empty()
            + spec_u64_to_le_bytes(o.withdrawn));
    } else {
        lemma_withdrawn_bytes_push(owners.drop_first(), o);
        assert(pushed.drop_first() =~= owners.drop_first().push(o));
        assert(withdrawn_bytes(pushed) == spec_u64_to_le_bytes(owners[0].withdrawn) + (
        withdrawn_bytes(owners.drop_first()) + spec_u64_to_le_bytes(o.withdrawn)));
        assert(spec_u64_to_le_bytes(owners[0].withdrawn) + (withdrawn_bytes(owners.drop_first())
            + spec_u64_to_le_bytes(o.withdrawn)) =~= (spec_u64_to_le_bytes(owners[0].withdrawn)
            + withdrawn_bytes(owners.drop_first())) + spec_u64_to_le_bytes(o.withdrawn));
    }
}

proof fn lemma_addresses_bytes_len(owners: Seq<OwnerView>)
    requires
        forall|i: int| 0 <= i < owners.len() ==> (#[trigger] owners[i]).address.len() == 32,
    ensures
        addresses_bytes(owners).len() == 32 * owners.len(),
    decreases owners.len(),
{
    if owners.len() > 0 {
        assert forall|i: int|
            0 <= i < owners.drop_first().len() implies (#[trigger] owners.drop_first()[i]).address.len()
            == 32 by {
            assert(owners.drop_first()[i] == owners[i + 1]);
        }
        lemma_addresses_bytes_len(owners.drop_first());
    }
}

proof fn lemma_withdrawn_bytes_len(owners: Seq<OwnerView>)
    ensures
        withdrawn_bytes(owners).len() == 8 * owners.len(),
    decreases owners.len(),
{
    vstd::bytes::lemma_auto_spec_u64_to_from_le_bytes();
    if owners.len() > 0 {
        lemma_withdrawn_bytes_len(owners.drop_first());
    }
}

/// The serialized form of a well-shaped record has exactly
/// [`spec_record_size`] bytes.
pub proof fn lemma_record_size(r: RecordView)
    requires
        r.shape_wf(),
    ensures
        spec_serialize_record(r).len() == spec_record_size(r.owners.len() as int),
{
    vstd::bytes::lemma_auto_spec_u32_to_from_le_bytes();
    vstd::bytes::lemma_auto_spec_u64_to_from_le_bytes();
    lemma_addresses_bytes_len(r.owners);
    lemma_withdrawn_bytes_len(r.owners);
}

/// Where each field of a well-shaped record stands in its serialized
/// form.
pub proof fn lemma_record_layout(w: RecordView)
    requires
        w.shape_wf(),
    ensures
        ({
            let s = spec_serialize_record(w);
            let n = w.owners.len() as int;
            &&& s.len() == spec_record_size(n)
            &&& s.subrange(0, 32) == w.token_mint
            &&& s.subrange(32, 36) == spec_u32_to_le_bytes(w.owners.len() as u32)
            &&& s.subrange(36, 36 + 32 * n) == addresses_bytes(w.owners)
            &&& s.subrange(36 + 32 * n, 40 + 32 * n) == spec_u32_to_le_bytes(
                w.owners.len() as u32,
            )
            &&& s.subrange(40 + 32 * n, 40 + 33 * n) == shares_bytes(w.owners)
            &&& s.subrange(40 + 33 * n, 44 + 33 * n) == spec_u32_to_le_bytes(
                w.owners.len() as u32,
            )
            &&& s.subrange(44 + 33 * n, 44 + 41 * n) == withdrawn_bytes(w.owners)
            &&& s.subrange(44 + 41 * n, 52 + 41 * n) == spec_u64_to_le_bytes(w.total_paid)
            &&& s.subrange(52 + 41 * n, 60 + 41 * n) == spec_u64_to_le_bytes(w.price)
            &&& s.subrange(60 + 41 * n, 68 + 41 * n) == spec_u64_to_le_bytes(w.period_duration)
            &&& s.subrange(68 + 41 * n, 76 + 41 * n) == spec_u64_to_le_bytes(w.paid_until as u64)
        }),
{
    vstd::bytes::lemma_auto_spec_u32_to_from_le_bytes();
    vstd::bytes::lemma_auto_spec_u64_to_from_le_bytes();
    lemma_addresses_bytes_len(w.owners);
    lemma_withdrawn_bytes_len(w.owners);
    let s = spec_serialize_record(w);
    let n = w.owners.len() as int;
    assert(s.subrange(0, 32) =~= w.token_mint);
    assert(s.subrange(32, 36) =~= spec_u32_to_le_bytes(w.owners.len() as u32));
    assert(s.subrange(36, 36 + 32 * n) =~= addresses_bytes(w.owners));
    assert(s.subrange(36 + 32 * n, 40 + 32 * n) =~= spec_u32_to_le_bytes(w.owners.len() as u32));
    assert(s.subrange(40 + 32 * n, 40 + 33 * n) =~= shares_bytes(w.owners));
    assert(s.subrange(40 + 33 * n, 44 + 33 * n) =~= spec_u32_to_le_bytes(w.owners.len() as u32));
    assert(s.subrange(44 + 33 * n, 44 + 41 * n) =~= withdrawn_bytes(w.owners));
    assert(s.subrange(44 + 41 * n, 52 + 41 * n) =~= spec_u64_to_le_bytes(w.total_paid));
    assert(s.subrange(52 + 41 * n, 60 + 41 * n) =~= spec_u64_to_le_bytes(w.price));
    assert(s.subrange(60 + 41 * n, 68 + 41 * n) =~= spec_u64_to_le_bytes(w.period_duration));
    assert(s.subrange(68 + 41 * n, 76 + 41 * n) =~= spec_u64_to_le_bytes(w.paid_until as u64));
}

/// The address of the owner at `j` stands at offset `32 * j` of the
/// owner-address region.
proof fn lemma_addresses_bytes_index(owners: Seq<OwnerView>, j: int)
    requires
        forall|i: int| 0 <= i < owners.len() ==> (#[trigger] owners[i]).address.len() == 32,
        0 <= j < owners.len(),
    ensures
        addresses_bytes(owners).subrange(32 * j, 32 * j + 32) == owners[j].address,
    decreases j,
{
    lemma_addresses_bytes_len(owners);
    if j == 0 {
        assert(addresses_bytes(owners).subrange(0, 32) =~= owners[0].address);
    } else {
        let rest = owners.drop_first();
        assert forall|i: int| 0 <= i < rest.len() implies (#[trigger] rest[i]).address.len()
            == 32 by {
            assert(rest[i] == owners[i + 1]);
        }
        lemma_addresses_bytes_index(rest, j - 1);
        lemma_addresses_bytes_len(rest);
        assert(rest[j - 1] == owners[j]);
        assert(addresses_bytes(owners).subrange(32 * j, 32 * j + 32) =~= addresses_bytes(
            rest,
        ).subrange(32 * (j - 1), 32 * (j - 1) + 32));
    }
}

/// The withdrawn amount of the owner at `j` stands at offset `8 * j` of
/// the withdrawn region.
proof fn lemma_withdrawn_bytes_index(owners: Seq<OwnerView>, j: int)
    requires
        0 <= j < owners.len(),
    ensures
        withdrawn_bytes(owners).subrange(8 * j, 8 * j + 8) == spec_u64_to_le_bytes(
            owners[j].withdrawn,
        ),
    decreases j,
{
    vstd::bytes::lemma_auto_spec_u64_to_from_le_bytes();
    lemma_withdrawn_bytes_len(owners);
    if j == 0 {
        assert(withdrawn_bytes(owners).subrange(0, 8) =~= spec_u64_to_le_bytes(
            owners[0].withdrawn,
        ));
    } else {
        let rest = owners.drop_first();
        lemma_withdrawn_bytes_index(rest, j - 1);
        lemma_withdrawn_bytes_len(rest);
        assert(rest[j - 1] == owners[j]);
        assert(withdrawn_bytes(owners).subrange(8 * j, 8 * j + 8) =~= withdrawn_bytes(
            rest,
        ).subrange(8 * (j - 1), 8 * (j - 1) + 8));
    }
}

/// Append the bytes of `src` to `out`.
pub(crate) fn append_bytes(out: &mut Vec<u8>, src: &Vec<u8>)
    ensures
        final(out)@ == old(out)@ + src@,
{
    let mut i: usize = 0;
    while i < src.len()
        invariant
            i <= src@.len(),
            out@ == old(out)@ + src@.subrange(0, i as int),
        decreases src@.len() - i,
    {
        out.push(src[i]);
        proof {
            assert(old(out)@ + src@.subrange(0, i as int) + seq![src@[i as int]] =~= old(out)@
                + src@.subrange(0, i + 1));
        }
        i = i + 1;
    }
    proof {
        assert(old(out)@ + src@.subrange(0, src@.len() as int) =~= old(out)@ + src@);
    }
}

/// Serialize a record into the persisted schema.
pub fn serialize_record(record: &SubscriptionData) -> (r: Vec<u8>)
    requires
        record@.shape_wf(),
    ensures
        r@ == spec_serialize_record(record@),
        r@.len() == spec_record_size(record@.owners.len() as int),
        r@.len() <= MAX_SUBSCRIPTION_SIZE,
{
    proof {
        lemma_record_size(record@);
    }
    let ghost owners_view = record@.owners;
    let n = record.owners.len();
    let mut out: Vec<u8> = Vec::new();

    append_bytes(&mut out, &record.token_mint.bytes);

    let mut count = u32_to_le_bytes(n as u32);
    out.append(&mut count);

    let ghost after_first_count = out@;
    let mut i: usize = 0;
    while i < n
        invariant
            i <= n,
            n == owners_view.len(),
            owners_view == record@.owners,
            out@ == after_first_count + addresses_bytes(owners_view.take(i as int)),
        decreases n - i,
    {
        append_bytes(&mut out, &record.owners[i].address.bytes);
        proof {
            lemma_addresses_bytes_push(owners_view.take(i as int), owners_view[i as int]);
            assert(owners_view.take(i as int).push(owners_view[i as int]) =~= owners_view.take(
                i + 1,
            ));
            assert(after_first_count + addresses_bytes(owners_view.take(i as int))
                + owners_view[i as int].address =~= after_first_count + addresses_bytes(
                owners_view.take(i + 1),
            ));
        }
        i = i + 1;
    }
    proof {
        assert(owners_view.take(n as int) =~= owners_view);
    }

    let mut count = u32_to_le_bytes(n as u32);
    out.append(&mut count);

    let ghost after_second_count = out@;
    let mut i: usize = 0;
    while i < n
        invariant
            i <= n,
            n == owners_view.len(),
            owners_view == record@.owners,
            out@ == after_second_count + shares_bytes(owners_view.take(i as int)),
        decreases n - i,
    {
        out.push(record.owners[i].share);
        proof {
            assert(after_second_count + shares_bytes(owners_view.take(i as int)) + seq![
                owners_view[i as int].share,
            ] =~= after_second_count + shares_bytes(owners_view.take(i + 1)));
        }
        i = i + 1;
    }
    proof {
        assert(owners_view.take(n as int) =~= owners_view);
    }

    let mut count = u32_to_le_bytes(n as u32);
    out.append(&mut count);

    let ghost after_third_count = out@;
    let mut i: usize = 0;
    while i < n
        invariant
            i <= n,
            n == owners_view.len(),
            owners_view == record@.owners,
            out@ == after_third_count + withdrawn_bytes(owners_view.take(i as int)),
        decreases n - i,
    {
        let mut w = u64_to_le_bytes(record.owners[i].withdrawn);
        out.append(&mut w);
        proof {
            lemma_withdrawn_bytes_push(owners_view.take(i as int), owners_view[i as int]);
            assert(owners_view.take(i as int).push(owners_view[i as int]) =~= owners_view.take(
                i + 1,
            ));
            assert(after_third_count + withdrawn_bytes(owners_view.take(i as int))
                + spec_u64_to_le_bytes(owners_view[i as int].withdrawn) =~= after_third_count
                + withdrawn_bytes(owners_view.take(i + 1)));
        }
        i = i + 1;
    }
    proof {
        assert(owners_view.take(n as int) =~= owners_view);
    }

    let mut tail = u64_to_le_bytes(record.total_paid);
    out.append(&mut tail);
    let mut tail = u64_to_le_bytes(record.price);
    out.append(&mut tail);
    let mut tail = u64_to_le_bytes(record.period_duration);
    out.append(&mut tail);
    let mut tail = u64_to_le_bytes(record.paid_until as u64);
    out.append(&mut tail);

    proof {
        assert(out@ =~= spec_serialize_record(record@));
    }
    out
}

/// The schema is versionless and unambiguous: two well-shaped records
/// with the same serialized form are the same record.
pub proof fn lemma_record_encoding_injective(w1: RecordView, w2: RecordView)
    requires
        w1.shape_wf(),
        w2.shape_wf(),
        spec_serialize_record(w1) == spec_serialize_record(w2),
    ensures
        w1 == w2,
{
    vstd::bytes::lemma_auto_spec_u32_to_from_le_bytes();
    vstd::bytes::lemma_auto_spec_u64_to_from_le_bytes();
    lemma_record_layout(w1);
    lemma_record_layout(w2);
    let s = spec_serialize_record(w1);
    assert(spec_u32_to_le_bytes(w1.owners.len() as u32) == s.subrange(32, 36));
    assert(spec_u32_to_le_bytes(w2.owners.len() as u32) == s.subrange(32, 36));
    assert(w1.owners.len() == w2.owners.len());
    let n = w1.owners.len() as int;
    assert(w1.token_mint == w2.token_mint);
    assert(addresses_bytes(w1.owners) == addresses_bytes(w2.owners));
    assert(shares_bytes(w1.owners) == shares_bytes(w2.owners));
    assert(withdrawn_bytes(w1.owners) == withdrawn_bytes(w2.owners));
    assert forall|j: int| 0 <= j < n implies w1.owners[j] == w2.owners[j] by {
        lemma_addresses_bytes_index(w1.owners, j);
        lemma_addresses_bytes_index(w2.owners, j);
        assert(shares_bytes(w1.owners)[j] == w1.owners[j].share);
        assert(shares_bytes(w2.owners)[j] == w2.owners[j].share);
        lemma_withdrawn_bytes_index(w1.owners, j);
        lemma_withdrawn_bytes_index(w2.owners, j);
        assert(spec_u64_to_le_bytes(w1.owners[j].withdrawn) == spec_u64_to_le_bytes(
            w2.owners[j].withdrawn,
        ));
    }
    assert(w1.owners =~= w2.owners);
    assert(spec_u64_to_le_bytes(w1.total_paid) == spec_u64_to_le_bytes(w2.total_paid));
    assert(spec_u64_to_le_bytes(w1.price) == spec_u64_to_le_bytes(w2.price));
    assert(spec_u64_to_le_bytes(w1.period_duration) == spec_u64_to_le_bytes(w2.period_duration));
    assert(spec_u64_to_le_bytes(w1.paid_until as u64) == spec_u64_to_le_bytes(
        w2.paid_until as u64,
    ));
    assert(w1.paid_until as u64 == w2.paid_until as u64);
}

/// A record assembled from the regions of `data` is the one record
/// whose serialized form `data` starts with.
proof fn lemma_decoded_record_exact(rec: RecordView, data: Seq<u8>, count: u32)
    requires
        count <= MAX_OWNER_LIMIT,
        rec.owners.len() == count,
        data.len() >= spec_record_size(count as int),
        rec.token_mint == data.subrange(0, 32),
        count == spec_u32_from_le_bytes(data.subrange(32, 36)),
        count == spec_u32_from_le_bytes(
            data.subrange(36 + 32 * count as int, 40 + 32 * count as int),
        ),
        count == spec_u32_from_le_bytes(
            data.subrange(40 + 33 * count as int, 44 + 33 * count as int),
        ),
        forall|j: int| 0 <= j < rec.owners.len() ==> (#[trigger] rec.owners[j]).address.len() == 32,
        addresses_bytes(rec.owners) == data.subrange(36, 36 + 32 * count as int),
        shares_bytes(rec.owners) == data.subrange(
            40 + 32 * count as int,
            40 + 33 * count as int,
        ),
        withdrawn_bytes(rec.owners) == data.subrange(
            44 + 33 * count as int,
            44 + 41 * count as int,
        ),
        rec.total_paid == spec_u64_from_le_bytes(
            data.subrange(44 + 41 * count as int, 52 + 41 * count as int),
        ),
        rec.price == spec_u64_from_le_bytes(
            data.subrange(52 + 41 * count as int, 60 + 41 * count as int),
        ),
        rec.period_duration == spec_u64_from_le_bytes(
            data.subrange(60 + 41 * count as int, 68 + 41 * count as int),
        ),
        rec.paid_until >= 0,
        rec.paid_until as u64 == spec_u64_from_le_bytes(
            data.subrange(68 + 41 * count as int, 76 + 41 * count as int),
        ),
    ensures
        encodes_record_prefix(rec, data),
        forall|w: RecordView| #[trigger] encodes_record_prefix(w, data) ==> w == rec,
{
    vstd::bytes::lemma_auto_spec_u32_to_from_le_bytes();
    vstd::bytes::lemma_auto_spec_u64_to_from_le_bytes();
    let n = count as int;
    let size = spec_record_size(n);
    lemma_addresses_bytes_len(rec.owners);
    lemma_withdrawn_bytes_len(rec.owners);

    assert(rec.shape_wf());
    assert(spec_u32_to_le_bytes(count) == data.subrange(32, 36));
    assert(spec_u32_to_le_bytes(count) == data.subrange(36 + 32 * n, 40 + 32 * n));
    assert(spec_u32_to_le_bytes(count) == data.subrange(40 + 33 * n, 44 + 33 * n));
    assert(spec_u64_to_le_bytes(rec.total_paid) == data.subrange(44 + 41 * n, 52 + 41 * n));
    assert(spec_u64_to_le_bytes(rec.price) == data.subrange(52 + 41 * n, 60 + 41 * n));
    assert(spec_u64_to_le_bytes(rec.period_duration) == data.subrange(60 + 41 * n, 68 + 41 * n));
    assert(spec_u64_to_le_bytes(rec.paid_until as u64) == data.subrange(68 + 41 * n, 76 + 41 * n));
    assert(spec_serialize_record(rec) =~= data.subrange(0, size));
    assert(encodes_record_prefix(rec, data));

    assert forall|w: RecordView| #[trigger] encodes_record_prefix(w, data) implies w == rec by {
        lemma_record_layout(w);
        let k = spec_record_size(w.owners.len() as int);
        assert(data.subrange(0, k).subrange(32, 36) =~= data.subrange(32, 36));
        assert(spec_u32_to_le_bytes(w.owners.len() as u32) == data.subrange(32, 36));
        assert(w.owners.len() as u32 == count);
        assert(k == size);
        assert(data.subrange(0, k).subrange(0, 32) =~= data.subrange(0, 32));
        assert(data.subrange(0, k).subrange(36, 36 + 32 * n) =~= data.subrange(36, 36 + 32 * n));
        assert(data.subrange(0, k).subrange(40 + 32 * n, 40 + 33 * n) =~= data.subrange(
            40 + 32 * n,
            40 + 33 * n,
        ));
        assert(data.subrange(0, k).subrange(44 + 33 * n, 44 + 41 * n) =~= data.subrange(
            44 + 33 * n,
            44 + 41 * n,
        ));
        assert(data.subrange(0, k).subrange(44 + 41 * n, 52 + 41 * n) =~= data.subrange(
            44 + 41 * n,
            52 + 41 * n,
        ));
        assert(data.subrange(0, k).subrange(52 + 41 * n, 60 + 41 * n) =~= data.subrange(
            52 + 41 * n,
            60 + 41 * n,
        ));
        assert(data.subrange(0, k).subrange(60 + 41 * n, 68 + 41 * n) =~= data.subrange(
            60 + 41 * n,
            68 + 41 * n,
        ));
        assert(data.subrange(0, k).subrange(68 + 41 * n, 76 + 41 * n) =~= data.subrange(
            68 + 41 * n,
            76 + 41 * n,
        ));
        assert(w.token_mint == rec.token_mint);
        assert(addresses_bytes(w.owners) == addresses_bytes(rec.owners));
        assert(shares_bytes(w.owners) == shares_bytes(rec.owners));
        assert(withdrawn_bytes(w.owners) == withdrawn_bytes(rec.owners));
        assert forall|j: int| 0 <= j < n implies w.owners[j] == rec.owners[j] by {
            lemma_addresses_bytes_index(w.owners, j);
            lemma_addresses_bytes_index(rec.owners, j);
            assert(w.owners[j].address == rec.owners[j].address);
            assert(shares_bytes(w.owners)[j] == w.owners[j].share);
            assert(shares_bytes(rec.owners)[j] == rec.owners[j].share);
            lemma_withdrawn_bytes_index(w.owners, j);
            lemma_withdrawn_bytes_index(rec.owners, j);
            assert(spec_u64_to_le_bytes(w.owners[j].withdrawn) == spec_u64_to_le_bytes(
                rec.owners[j].withdrawn,
            ));
            assert(w.owners[j].withdrawn == rec.owners[j].withdrawn);
        }
        assert(w.owners =~= rec.owners);
        assert(spec_u64_to_le_bytes(w.total_paid) == data.subrange(44 + 41 * n, 52 + 41 * n));
        assert(w.total_paid == rec.total_paid);
        assert(spec_u64_to_le_bytes(w.price) == data.subrange(52 + 41 * n, 60 + 41 * n));
        assert(w.price == rec.price);
        assert(spec_u64_to_le_bytes(w.period_duration) == data.subrange(
            60 + 41 * n,
            68 + 41 * n,
        ));
        assert(w.period_duration == rec.period_duration);
        assert(spec_u64_to_le_bytes(w.paid_until as u64) == data.subrange(
            68 + 41 * n,
            76 + 41 * n,
        ));
        assert(w.paid_until as u64 == rec.paid_until as u64);
        assert(w.paid_until == rec.paid_until);
    }
}

/// Whether `data` starts with the serialized form of the well-shaped
/// record `w` (trailing padding behind the encoded prefix is ignored).
pub open spec fn encodes_record_prefix(w: RecordView, data: Seq<u8>) -> bool {
    &&& w.shape_wf()
    &&& data.len() >= spec_record_size(w.owners.len() as int)
    &&& spec_serialize_record(w) == data.subrange(0, spec_record_size(w.owners.len() as int))
}

impl SubscriptionData {
    /// Decode a record from persisted data.
    ///
    /// Returns the one record whose serialized form `data` starts with,
    /// or `DataTypeMismatch` when `data` encodes no record at all: the
    /// two directions below make this exact, so decoding inverts
    /// [`serialize_record`].
    pub fn from_account_info(data: &Vec<u8>) -> (r: Result<SubscriptionData, SubscriptionError>)
        ensures
            (match r {
                Ok(rec) => encodes_record_prefix(rec@, data@),
                Err(e) => e == SubscriptionError::DataTypeMismatch,
            }),
            forall|w: RecordView| #[trigger]
                encodes_record_prefix(w, data@) ==> (r matches Ok(rec) && rec@ == w),
    {
        proof {
            vstd::bytes::lemma_auto_spec_u32_to_from_le_bytes();
            vstd::bytes::lemma_auto_spec_u64_to_from_le_bytes();
        }

        if data.len() < 76 {
            proof {
                assert forall|w: RecordView| !encodes_record_prefix(w, data@) by {
                    if encodes_record_prefix(w, data@) {
                        assert(data@.len() >= 76 + 41 * w.owners.len());
                    }
                }
            }
            return Err(SubscriptionError::DataTypeMismatch);
        }

        let s = data.as_slice();
        let count1 = u32_from_le_bytes(slice_subrange(s, 32, 36));

        proof {
            assert forall|w: RecordView| #[trigger]
                encodes_record_prefix(w, data@) implies w.owners.len() as u32 == count1 by {
                lemma_record_layout(w);
                let k = spec_record_size(w.owners.len() as int);
                assert(data@.subrange(0, k).subrange(32, 36) =~= data@.subrange(32, 36));
                assert(spec_u32_to_le_bytes(w.owners.len() as u32) == data@.subrange(32, 36));
            }
        }

        if count1 > MAX_OWNER_LIMIT as u32 {
            proof {
                assert forall|w: RecordView| !encodes_record_prefix(w, data@) by {
                    if encodes_record_prefix(w, data@) {
                        assert(w.owners.len() as u32 == count1);
                    }
                }
            }
            return Err(SubscriptionError::DataTypeMismatch);
        }
        let n = count1 as usize;
        let size = 76 + 41 * n;

        if data.len() < size {
            proof {
                assert forall|w: RecordView| !encodes_record_prefix(w, data@) by {
                    if encodes_record_prefix(w, data@) {
                        assert(w.owners.len() as u32 == count1);
                        assert(data@.len() >= spec_record_size(n as int));
                    }
                }
            }
            return Err(SubscriptionError::DataTypeMismatch);
        }

        // With the owner count known, every region offset is fixed; the
        // two redundant counts must agree with the first.
        proof {
            assert forall|w: RecordView| #[trigger]
                encodes_record_prefix(w, data@) implies spec_serialize_record(w) == data@.subrange(
                0,
                size as int,
            ) by {
                assert(w.owners.len() as u32 == count1);
            }
        }

        let count2 = u32_from_le_bytes(slice_subrange(s, 36 + 32 * n, 40 + 32 * n));
        if count2 != count1 {
            proof {
                assert forall|w: RecordView| !encodes_record_prefix(w, data@) by {
                    if encodes_record_prefix(w, data@) {
                        lemma_record_layout(w);
                        let k = spec_record_size(w.owners.len() as int);
                        assert(data@.subrange(0, k).subrange(36 + 32 * n, 40 + 32 * n)
                            =~= data@.subrange(36 + 32 * n, 40 + 32 * n));
                        assert(spec_u32_to_le_bytes(count1) == data@.subrange(
                            36 + 32 * n,
                            40 + 32 * n,
                        ));
                    }
                }
            }
            return Err(SubscriptionError::DataTypeMismatch);
        }

        let count3 = u32_from_le_bytes(slice_subrange(s, 40 + 33 * n, 44 + 33 * n));
        if count3 != count1 {
            proof {
                assert forall|w: RecordView| !encodes_record_prefix(w, data@) by {
                    if encodes_record_prefix(w, data@) {
                        lemma_record_layout(w);
                        let k = spec_record_size(w.owners.len() as int);
                        assert(data@.subrange(0, k).subrange(40 + 33 * n, 44 + 33 * n)
                            =~= data@.subrange(40 + 33 * n, 44 + 33 * n));
                        assert(spec_u32_to_le_bytes(count1) == data@.subrange(
                            40 + 33 * n,
                            44 + 33 * n,
                        ));
                    }
                }
            }
            return Err(SubscriptionError::DataTypeMismatch);
        }

        let total_paid = u64_from_le_bytes(slice_subrange(s, 44 + 41 * n, 52 + 41 * n));
        let price = u64_from_le_bytes(slice_subrange(s, 52 + 41 * n, 60 + 41 * n));
        let period_duration = u64_from_le_bytes(slice_subrange(s, 60 + 41 * n, 68 + 41 * n));
        let paid_until_raw = u64_from_le_bytes(slice_subrange(s, 68 + 41 * n, 76 + 41 * n));

        if paid_until_raw > i64::MAX as u64 {
            proof {
                assert forall|w: RecordView| !encodes_record_prefix(w, data@) by {
                    if encodes_record_prefix(w, data@) {
                        lemma_record_layout(w);
                        let k = spec_record_size(w.owners.len() as int);
                        assert(data@.subrange(0, k).subrange(68 + 41 * n, 76 + 41 * n)
                            =~= data@.subrange(68 + 41 * n, 76 + 41 * n));
                        assert(spec_u64_to_le_bytes(w.paid_until as u64) == data@.subrange(
                            68 + 41 * n,
                            76 + 41 * n,
                        ));
                        assert(w.paid_until as u64 == paid_until_raw);
                    }
                }
            }
            return Err(SubscriptionError::DataTypeMismatch);
        }
        let paid_until = paid_until_raw as i64;

        let mut owners: Vec<OwnerEntry> = Vec::new();
        let mut i: usize = 0;
        while i < n
            invariant
                i <= n,
                n <= MAX_OWNER_LIMIT,
                data@.len() >= 76 + 41 * n,
                s@ == data@,
                owners@.len() == i,
                forall|j: int|
                    0 <= j < i ==> (#[trigger] owners@[j])@.address.len() == 32,
                addresses_bytes(owners@.map_values(|o: OwnerEntry| o@)) == data@.subrange(
                    36,
                    36 + 32 * i as int,
                ),
                shares_bytes(owners@.map_values(|o: OwnerEntry| o@)) == data@.subrange(
                    40 + 32 * n as int,
                    40 + 32 * n as int + i as int,
                ),
                withdrawn_bytes(owners@.map_values(|o: OwnerEntry| o@)) == data@.subrange(
                    44 + 33 * n as int,
                    44 + 33 * n as int + 8 * i as int,
                ),
            decreases n - i,
        {
            let ghost built = owners@.map_values(|o: OwnerEntry| o@);
            let address = Address {
                bytes: vstd::slice::slice_to_vec(slice_subrange(s, 36 + 32 * i, 68 + 32 * i)),
            };
            let share = data[40 + 32 * n + i];
            let withdrawn = u64_from_le_bytes(
                slice_subrange(s, 44 + 33 * n + 8 * i, 52 + 33 * n + 8 * i),
            );
            let entry = OwnerEntry { address, share, withdrawn };
            let ghost entry_view = entry@;
            owners.push(entry);
            proof {
                vstd::bytes::lemma_auto_spec_u64_to_from_le_bytes();
                assert(owners@.map_values(|o: OwnerEntry| o@) =~= built.push(entry_view));
                lemma_addresses_bytes_push(built, entry_view);
                assert(data@.subrange(36, 36 + 32 * i as int) + data@.subrange(
                    36 + 32 * i as int,
                    36 + 32 * (i + 1) as int,
                ) =~= data@.subrange(36, 36 + 32 * (i + 1) as int));
                assert(shares_bytes(built.push(entry_view)) =~= shares_bytes(built) + seq![
                    entry_view.share,
                ]);
                assert(data@.subrange(40 + 32 * n as int, 40 + 32 * n as int + i as int) + seq![
                    data@[40 + 32 * n as int + i as int],
                ] =~= data@.subrange(40 + 32 * n as int, 40 + 32 * n as int + (i + 1) as int));
                lemma_withdrawn_bytes_push(built, entry_view);
                assert(spec_u64_to_le_bytes(withdrawn) == data@.subrange(
                    44 + 33 * n as int + 8 * i as int,
                    44 + 33 * n as int + 8 * (i + 1) as int,
                ));
                assert(data@.subrange(44 + 33 * n as int, 44 + 33 * n as int + 8 * i as int)
                    + data@.subrange(
                    44 + 33 * n as int + 8 * i as int,
                    44 + 33 * n as int + 8 * (i + 1) as int,
                ) =~= data@.subrange(44 + 33 * n as int, 44 + 33 * n as int + 8 * (i + 1) as int));
            }
            i = i + 1;
        }

        let record = SubscriptionData {
            token_mint: Address { bytes: vstd::slice::slice_to_vec(slice_subrange(s, 0, 32)) },
            owners,
            total_paid,
            price,
            period_duration,
            paid_until,
        };

        proof {
            lemma_decoded_record_exact(record@, data@, count1);
        }
        Ok(record)
    }

    /// Read the value-type reference straight out of serialized record
    /// data, without decoding the rest: it is the first 32 bytes of the
    /// schema.
    pub fn get_token_mint(data: &Vec<u8>) -> (r: Address)
        requires
            data@.len() >= 32,
        ensures
            r@ == data@.subrange(0, 32),
            r.wf(),
    {
        let mut bytes: Vec<u8> = Vec::new();
        let mut i: usize = 0;
        while i < 32
            invariant
                i <= 32,
                data@.len() >= 32,
                bytes@ == data@.subrange(0, i as int),
            decreases 32 - i,
        {
            bytes.push(data[i]);
            proof {
                assert(data@.subrange(0, i as int) + seq![data@[i as int]] =~= data@.subrange(
                    0,
                    i + 1,
                ));
            }
            i = i + 1;
        }
        Address { bytes }
    }
}

} // verus!

//! The three externally invocable operations, each with its argument
//! record and its fixed, ordered list of account roles.
//!
//! The builders compute, for each operation, the ordered role table the
//! entry boundary must present: which address stands in each position,
//! and which positions must sign or be writable.  The subscription
//! account's position always carries the derived identifier, never a
//! caller-chosen one.  Turning a role table and an argument record into
//! the host ledger's own call format is the host's concern.

use vstd::bytes::{
    spec_u32_from_le_bytes, spec_u32_to_le_bytes, spec_u64_from_le_bytes, spec_u64_to_le_bytes,
    u32_from_le_bytes, u32_to_le_bytes, u64_from_le_bytes, u64_to_le_bytes,
};
use vstd::prelude::*;
use vstd::slice::slice_subrange;

use crate::errors::SubscriptionError;
use crate::identity::{derived_identifier, prefix_seed, Address};
use crate::processor::{CreateSubscriptionArgs, PaySubscriptionArgs, WithdrawFundsArgs};

verus! {

/// One externally invocable operation together with its arguments.
#[derive(Debug)]
pub enum SubscriptionInstruction {
    /// Create a new subscription account bound to a resource.
    CreateSubscription(CreateSubscriptionArgs),
    /// Move escrowed value to a co-owner's destination account.
    WithdrawFunds(WithdrawFundsArgs),
    /// Add one period's price to a subscription's escrow.
    PaySubscription(PaySubscriptionArgs),
}

/// The mathematical model of a [`SubscriptionInstruction`].
pub enum InstructionView {
    Create {
        owner_addresses: Seq<Seq<u8>>,
        owner_shares: Seq<u8>,
        token_mint: Seq<u8>,
        resource: Seq<u8>,
        price: u64,
        period_duration: u64,
    },
    Withdraw { resource: Seq<u8>, amount: u64 },
    Pay { resource: Seq<u8> },
}

impl View for SubscriptionInstruction {
    type V = InstructionView;

    open spec fn view(&self) -> InstructionView {
        match self {
            SubscriptionInstruction::CreateSubscription(args) => InstructionView::Create {
                owner_addresses: args.owner_addresses@.map_values(|a: Address| a@),
                owner_shares: args.owner_shares@,
                token_mint: args.token_mint@,
                resource: args.resource@,
                price: args.price,
                period_duration: args.period_duration,
            },
            SubscriptionInstruction::WithdrawFunds(args) => InstructionView::Withdraw {
                resource: args.resource@,
                amount: args.amount,
            },
            SubscriptionInstruction::PaySubscription(args) => InstructionView::Pay {
                resource: args.resource@,
            },
        }
    }
}

impl InstructionView {
    /// Identifiers hold exactly 32 bytes and list lengths fit the
    /// four-byte counts of the wire form.
    pub open spec fn wf(self) -> bool {
        match self {
            InstructionView::Create {
                owner_addresses,
                owner_shares,
                token_mint,
                resource,
                ..
            } => {
                &&& owner_addresses.len() <= u32::MAX
                &&& owner_shares.len() <= u32::MAX
                &&& forall|i: int|
                    0 <= i < owner_addresses.len() ==> (#[trigger] owner_addresses[i]).len() == 32
                &&& token_mint.len() == 32
                &&& resource.len() == 32
            },
            InstructionView::Withdraw { resource, .. } => resource.len() == 32,
            InstructionView::Pay { resource } => resource.len() == 32,
        }
    }
}

/// A list of 32-byte addresses, one after the other.
pub open spec fn address_list_bytes(addresses: Seq<Seq<u8>>) -> Seq<u8>
    decreases addresses.len(),
{
    if addresses.len() == 0 {
        Seq::empty()
    } else {
        addresses[0] + address_list_bytes(addresses.drop_first())
    }
}

proof fn lemma_address_list_bytes_push(addresses: Seq<Seq<u8>>, a: Seq<u8>)
    ensures
        address_list_bytes(addresses.push(a)) == address_list_bytes(addresses) + a,
    decreases addresses.len(),
{
    let pushed = addresses.push(a);
    assert(pushed[0] == if addresses.len() == 0 { a } else { addresses[0] });
    if addresses.len() == 0 {
        assert(pushed.drop_first() =~= Seq::<Seq<u8>>::empty());
        assert(address_list_bytes(Seq::<Seq<u8>>::empty()) == Seq::<u8>::empty());
        assert(address_list_bytes(pushed) == a + Seq::<u8>::empty());
        assert(a + Seq::<u8>::empty() =~= Seq::<u8>::empty() + a);
    } else {
        lemma_address_list_bytes_push(addresses.drop_first(), a);
        assert(pushed.drop_first() =~= addresses.drop_first().push(a));
        assert(address_list_bytes(pushed) == addresses[0] + (address_list_bytes(
            addresses.drop_first(),
        ) + a));
        assert(addresses[0] + (address_list_bytes(addresses.drop_first()) + a) =~= (addresses[0]
            + address_list_bytes(addresses.drop_first())) + a);
    }
}

proof fn lemma_address_list_bytes_len(addresses: Seq<Seq<u8>>)
    requires
        forall|i: int| 0 <= i < addresses.len() ==> (#[trigger] addresses[i]).len() == 32,
    ensures
        address_list_bytes(addresses).len() == 32 * addresses.len(),
    decreases addresses.len(),
{
    if addresses.len() > 0 {
        assert forall|i: int|
            0 <= i < addresses.drop_first().len() implies (#[trigger] addresses.drop_first()[i]).len()
            == 32 by {
            assert(addresses.drop_first()[i] == addresses[i + 1]);
        }
        lemma_address_list_bytes_len(addresses.drop_first());
    }
}

proof fn lemma_address_list_bytes_index(addresses: Seq<Seq<u8>>, j: int)
    requires
        forall|i: int| 0 <= i < addresses.len() ==> (#[trigger] addresses[i]).len() == 32,
        0 <= j < addresses.len(),
    ensures
        address_list_bytes(addresses).subrange(32 * j, 32 * j + 32) == addresses[j],
    decreases j,
{
    lemma_address_list_bytes_len(addresses);
    if j == 0 {
        assert(address_list_bytes(addresses).subrange(0, 32) =~= addresses[0]);
    } else {
        let rest = addresses.drop_first();
        assert forall|i: int| 0 <= i < rest.len() implies (#[trigger] rest[i]).len() == 32 by {
            assert(rest[i] == addresses[i + 1]);
        }
        lemma_address_list_bytes_index(rest, j - 1);
        lemma_address_list_bytes_len(rest);
        assert(rest[j - 1] == addresses[j]);
        assert(address_list_bytes(addresses).subrange(32 * j, 32 * j + 32) =~= address_list_bytes(
            rest,
        ).subrange(32 * (j - 1), 32 * (j - 1) + 32));
    }
}

/// The wire form of an operation: a one-byte operation tag in
/// declaration order, then the argument record's fields in order, counts
/// and integers little-endian.
pub open spec fn spec_encode_instruction(v: InstructionView) -> Seq<u8> {
    match v {
        InstructionView::Create {
            owner_addresses,
            owner_shares,
            token_mint,
            resource,
            price,
            period_duration,
        } => seq![0u8] + spec_u32_to_le_bytes(owner_addresses.len() as u32) + address_list_bytes(
            owner_addresses,
        ) + spec_u32_to_le_bytes(owner_shares.len() as u32) + owner_shares + token_mint + resource
            + spec_u64_to_le_bytes(price) + spec_u64_to_le_bytes(period_duration),
        InstructionView::Withdraw { resource, amount } => seq![1u8] + resource
            + spec_u64_to_le_bytes(amount),
        InstructionView::Pay { resource } => seq![2u8] + resource,
    }
}

/// The exact size of an encoded operation.
pub open spec fn spec_encoded_size(v: InstructionView) -> int {
    match v {
        InstructionView::Create { owner_addresses, owner_shares, .. } => 89 + 32
            * owner_addresses.len() as int + owner_shares.len() as int,
        InstructionView::Withdraw { .. } => 41,
        InstructionView::Pay { .. } => 33,
    }
}

/// Where each field of a well-formed operation stands in its wire form.
proof fn lemma_instruction_layout(v: InstructionView)
    requires
        v.wf(),
    ensures
        spec_encode_instruction(v).len() == spec_encoded_size(v),
        ({
            let s = spec_encode_instruction(v);
            match v {
                InstructionView::Create {
                    owner_addresses,
                    owner_shares,
                    token_mint,
                    resource,
                    price,
                    period_duration,
                } => {
                    let n = owner_addresses.len() as int;
                    let m = owner_shares.len() as int;
                    &&& s[0] == 0u8
                    &&& s.subrange(1, 5) == spec_u32_to_le_bytes(owner_addresses.len() as u32)
                    &&& s.subrange(5, 5 + 32 * n) == address_list_bytes(owner_addresses)
                    &&& s.subrange(5 + 32 * n, 9 + 32 * n) == spec_u32_to_le_bytes(
                        owner_shares.len() as u32,
                    )
                    &&& s.subrange(9 + 32 * n, 9 + 32 * n + m) == owner_shares
                    &&& s.subrange(9 + 32 * n + m, 41 + 32 * n + m) == token_mint
                    &&& s.subrange(41 + 32 * n + m, 73 + 32 * n + m) == resource
                    &&& s.subrange(73 + 32 * n + m, 81 + 32 * n + m) == spec_u64_to_le_bytes(price)
                    &&& s.subrange(81 + 32 * n + m, 89 + 32 * n + m) == spec_u64_to_le_bytes(
                        period_duration,
                    )
                },
                InstructionView::Withdraw { resource, amount } => {
                    &&& s[0] == 1u8
                    &&& s.subrange(1, 33) == resource
                    &&& s.subrange(33, 41) == spec_u64_to_le_bytes(amount)
                },
                InstructionView::Pay { resource } => {
                    &&& s[0] == 2u8
                    &&& s.subrange(1, 33) == resource
                },
            }
        }),
{
    vstd::bytes::lemma_auto_spec_u32_to_from_le_bytes();
    vstd::bytes::lemma_auto_spec_u64_to_from_le_bytes();
    let s = spec_encode_instruction(v);
    match v {
        InstructionView::Create {
            owner_addresses,
            owner_shares,
            token_mint,
            resource,
            price,
            period_duration,
        } => {
            let n = owner_addresses.len() as int;
            let m = owner_shares.len() as int;
            lemma_address_list_bytes_len(owner_addresses);
            assert(s.subrange(1, 5) =~= spec_u32_to_le_bytes(owner_addresses.len() as u32));
            assert(s.subrange(5, 5 + 32 * n) =~= address_list_bytes(owner_addresses));
            assert(s.subrange(5 + 32 * n, 9 + 32 * n) =~= spec_u32_to_le_bytes(
                owner_shares.len() as u32,
            ));
            assert(s.subrange(9 + 32 * n, 9 + 32 * n + m) =~= owner_shares);
            assert(s.subrange(9 + 32 * n + m, 41 + 32 * n + m) =~= token_mint);
            assert(s.subrange(41 + 32 * n + m, 73 + 32 * n + m) =~= resource);
            assert(s.subrange(73 + 32 * n + m, 81 + 32 * n + m) =~= spec_u64_to_le_bytes(price));
            assert(s.subrange(81 + 32 * n + m, 89 + 32 * n + m) =~= spec_u64_to_le_bytes(
                period_duration,
            ));
        },
        InstructionView::Withdraw { resource, amount } => {
            assert(s.subrange(1, 33) =~= resource);
            assert(s.subrange(33, 41) =~= spec_u64_to_le_bytes(amount));
        },
        InstructionView::Pay { resource } => {
            assert(s.subrange(1, 33) =~= resource);
        },
    }
}

/// One position in an operation's ordered account list: the address
/// that must stand there, and whether that position signs or is
/// written.
#[derive(Debug)]
pub struct AccountRole {
    pub address: Address,
    pub is_signer: bool,
    pub is_writable: bool,
}

/// Encode an operation into its wire form.
pub fn encode_instruction(instruction: &SubscriptionInstruction) -> (r: Vec<u8>)
    requires
        instruction@.wf(),
    ensures
        r@ == spec_encode_instruction(instruction@),
        r@.len() == spec_encoded_size(instruction@),
{
    proof {
        lemma_instruction_layout(instruction@);
    }
    match instruction {
        SubscriptionInstruction::CreateSubscription(args) => {
            let ghost addresses_view = args.owner_addresses@.map_values(|a: Address| a@);
            let mut out: Vec<u8> = Vec::new();
            out.push(0);
            let mut count = u32_to_le_bytes(args.owner_addresses.len() as u32);
            out.append(&mut count);
            let ghost after_count = out@;
            let n = args.owner_addresses.len();
            let mut i: usize = 0;
            while i < n
                invariant
                    i <= n,
                    n == addresses_view.len(),
                    addresses_view == args.owner_addresses@.map_values(|a: Address| a@),
                    out@ == after_count + address_list_bytes(addresses_view.take(i as int)),
                decreases n - i,
            {
                crate::serialization::append_bytes(&mut out, &args.owner_addresses[i].bytes);
                proof {
                    lemma_address_list_bytes_push(
                        addresses_view.take(i as int),
                        addresses_view[i as int],
                    );
                    assert(addresses_view.take(i as int).push(addresses_view[i as int])
                        =~= addresses_view.take(i + 1));
                    assert(after_count + address_list_bytes(addresses_view.take(i as int))
                        + addresses_view[i as int] =~= after_count + address_list_bytes(
                        addresses_view.take(i + 1),
                    ));
                }
                i = i + 1;
            }
            proof {
                assert(addresses_view.take(n as int) =~= addresses_view);
            }
            let mut count = u32_to_le_bytes(args.owner_shares.len() as u32);
            out.append(&mut count);
            crate::serialization::append_bytes(&mut out, &args.owner_shares);
            crate::serialization::append_bytes(&mut out, &args.token_mint.bytes);
            crate::serialization::append_bytes(&mut out, &args.resource.bytes);
            let mut tail = u64_to_le_bytes(args.price);
            out.append(&mut tail);
            let mut tail = u64_to_le_bytes(args.period_duration);
            out.append(&mut tail);
            proof {
                assert(out@ =~= spec_encode_instruction(instruction@));
            }
            out
        },
        SubscriptionInstruction::WithdrawFunds(args) => {
            let mut out: Vec<u8> = Vec::new();
            out.push(1);
            crate::serialization::append_bytes(&mut out, &args.resource.bytes);
            let mut tail = u64_to_le_bytes(args.amount);
            out.append(&mut tail);
            proof {
                assert(out@ =~= spec_encode_instruction(instruction@));
            }
            out
        },
        SubscriptionInstruction::PaySubscription(args) => {
            let mut out: Vec<u8> = Vec::new();
            out.push(2);
            crate::serialization::append_bytes(&mut out, &args.resource.bytes);
            proof {
                assert(out@ =~= spec_encode_instruction(instruction@));
            }
            out
        },
    }
}

/// An operation assembled from the regions of `data` is the one
/// operation whose wire form is exactly `data`.
proof fn lemma_decoded_create_exact(iv: InstructionView, data: Seq<u8>, n32: u32, m32: u32)
    requires
        iv is Create,
        iv.wf(),
        iv->Create_owner_addresses.len() == n32,
        iv->Create_owner_shares.len() == m32,
        data.len() == 89 + 32 * (n32 as int) + m32 as int,
        data[0] == 0u8,
        n32 == spec_u32_from_le_bytes(data.subrange(1, 5)),
        m32 == spec_u32_from_le_bytes(
            data.subrange(5 + 32 * n32 as int, 9 + 32 * n32 as int),
        ),
        address_list_bytes(iv->Create_owner_addresses) == data.subrange(5, 5 + 32 * n32 as int),
        iv->Create_owner_shares == data.subrange(
            9 + 32 * n32 as int,
            9 + 32 * n32 as int + m32 as int,
        ),
        iv->Create_token_mint == data.subrange(
            9 + 32 * n32 as int + m32 as int,
            41 + 32 * n32 as int + m32 as int,
        ),
        iv->Create_resource == data.subrange(
            41 + 32 * n32 as int + m32 as int,
            73 + 32 * n32 as int + m32 as int,
        ),
        iv->Create_price == spec_u64_from_le_bytes(
            data.subrange(73 + 32 * n32 as int + m32 as int, 81 + 32 * n32 as int + m32 as int),
        ),
        iv->Create_period_duration == spec_u64_from_le_bytes(
            data.subrange(81 + 32 * n32 as int + m32 as int, 89 + 32 * n32 as int + m32 as int),
        ),
    ensures
        spec_encode_instruction(iv) == data,
        forall|v: InstructionView|
            v.wf() && #[trigger] spec_encode_instruction(v) == data ==> v == iv,
{
    vstd::bytes::lemma_auto_spec_u32_to_from_le_bytes();
    vstd::bytes::lemma_auto_spec_u64_to_from_le_bytes();
    let n = n32 as int;
    let m = m32 as int;
    lemma_instruction_layout(iv);
    assert(spec_u32_to_le_bytes(n32) == data.subrange(1, 5));
    assert(spec_u32_to_le_bytes(m32) == data.subrange(5 + 32 * n, 9 + 32 * n));
    assert(spec_u64_to_le_bytes(iv->Create_price) == data.subrange(
        73 + 32 * n + m,
        81 + 32 * n + m,
    ));
    assert(spec_u64_to_le_bytes(iv->Create_period_duration) == data.subrange(
        81 + 32 * n + m,
        89 + 32 * n + m,
    ));
    assert(spec_encode_instruction(iv) =~= data);

    assert forall|v: InstructionView|
        v.wf() && #[trigger] spec_encode_instruction(v) == data implies v == iv by {
        lemma_instruction_layout(v);
        match v {
            InstructionView::Create {
                owner_addresses,
                owner_shares,
                token_mint,
                resource,
                price,
                period_duration,
            } => {
                assert(spec_u32_to_le_bytes(owner_addresses.len() as u32) == data.subrange(1, 5));
                assert(owner_addresses.len() as u32 == n32);
                let vn = owner_addresses.len() as int;
                assert(vn == n);
                assert(spec_u32_to_le_bytes(owner_shares.len() as u32) == data.subrange(
                    5 + 32 * n,
                    9 + 32 * n,
                ));
                assert(owner_shares.len() as u32 == m32);
                assert(address_list_bytes(owner_addresses) == address_list_bytes(
                    iv->Create_owner_addresses,
                ));
                assert forall|j: int|
                    0 <= j < n implies owner_addresses[j] == iv->Create_owner_addresses[j] by {
                    lemma_address_list_bytes_index(owner_addresses, j);
                    lemma_address_list_bytes_index(iv->Create_owner_addresses, j);
                }
                assert(owner_addresses =~= iv->Create_owner_addresses);
                assert(owner_shares == iv->Create_owner_shares);
                assert(token_mint == iv->Create_token_mint);
                assert(resource == iv->Create_resource);
                assert(spec_u64_to_le_bytes(price) == data.subrange(
                    73 + 32 * n + m,
                    81 + 32 * n + m,
                ));
                assert(price == iv->Create_price);
                assert(spec_u64_to_le_bytes(period_duration) == data.subrange(
                    81 + 32 * n + m,
                    89 + 32 * n + m,
                ));
                assert(period_duration == iv->Create_period_duration);
            },
            InstructionView::Withdraw { .. } => {
                assert(spec_encode_instruction(v)[0] == 1u8);
            },
            InstructionView::Pay { .. } => {
                assert(spec_encode_instruction(v)[0] == 2u8);
            },
        }
    }
}

/// The wire form is unambiguous: two well-formed operations with the
/// same encoding are the same operation.
pub proof fn lemma_instruction_encoding_injective(v1: InstructionView, v2: InstructionView)
    requires
        v1.wf(),
        v2.wf(),
        spec_encode_instruction(v1) == spec_encode_instruction(v2),
    ensures
        v1 == v2,
{
    vstd::bytes::lemma_auto_spec_u32_to_from_le_bytes();
    vstd::bytes::lemma_auto_spec_u64_to_from_le_bytes();
    lemma_instruction_layout(v1);
    lemma_instruction_layout(v2);
    let s = spec_encode_instruction(v1);
    match v1 {
        InstructionView::Create {
            owner_addresses,
            owner_shares,
            token_mint,
            resource,
            price,
            period_duration,
        } => {
            assert(s[0] == 0u8);
            assert(v2 is Create);
            let n = owner_addresses.len() as int;
            let m = owner_shares.len() as int;
            assert(spec_u32_to_le_bytes(owner_addresses.len() as u32) == s.subrange(1, 5));
            assert(spec_u32_to_le_bytes(v2->Create_owner_addresses.len() as u32) == s.subrange(
                1,
                5,
            ));
            assert(v2->Create_owner_addresses.len() == n);
            assert(spec_u32_to_le_bytes(owner_shares.len() as u32) == s.subrange(
                5 + 32 * n,
                9 + 32 * n,
            ));
            assert(spec_u32_to_le_bytes(v2->Create_owner_shares.len() as u32) == s.subrange(
                5 + 32 * n,
                9 + 32 * n,
            ));
            assert(v2->Create_owner_shares.len() == m);
            assert(address_list_bytes(owner_addresses) == address_list_bytes(
                v2->Create_owner_addresses,
            ));
            assert forall|j: int|
                0 <= j < n implies owner_addresses[j] == v2->Create_owner_addresses[j] by {
                lemma_address_list_bytes_index(owner_addresses, j);
                lemma_address_list_bytes_index(v2->Create_owner_addresses, j);
            }
            assert(owner_addresses =~= v2->Create_owner_addresses);
            assert(owner_shares == v2->Create_owner_shares);
            assert(token_mint == v2->Create_token_mint);
            assert(resource == v2->Create_resource);
            assert(spec_u64_to_le_bytes(price) == spec_u64_to_le_bytes(v2->Create_price));
            assert(spec_u64_to_le_bytes(period_duration) == spec_u64_to_le_bytes(
                v2->Create_period_duration,
            ));
        },
        InstructionView::Withdraw { resource, amount } => {
            assert(s[0] == 1u8);
            assert(v2 is Withdraw);
            assert(resource == v2->Withdraw_resource);
            assert(spec_u64_to_le_bytes(amount) == spec_u64_to_le_bytes(v2->Withdraw_amount));
        },
        InstructionView::Pay { resource } => {
            assert(s[0] == 2u8);
            assert(v2 is Pay);
            assert(resource == v2->Pay_resource);
        },
    }
}

/// Decode an operation from its wire form.
///
/// Returns the one operation whose wire form is exactly `data`, or
/// `DataTypeMismatch` when `data` encodes none (unknown tag, truncated
/// fields, or trailing bytes): the two directions below make this
/// exact, so decoding inverts [`encode_instruction`].
pub fn decode_instruction(data: &Vec<u8>) -> (r: Result<SubscriptionInstruction, SubscriptionError>)
    ensures
        (match r {
            Ok(instruction) => instruction@.wf() && spec_encode_instruction(instruction@) == data@,
            Err(e) => e == SubscriptionError::DataTypeMismatch,
        }),
        forall|v: InstructionView|
            v.wf() && #[trigger] spec_encode_instruction(v) == data@ ==> (r matches Ok(i) && i@
                == v),
{
    proof {
        vstd::bytes::lemma_auto_spec_u32_to_from_le_bytes();
        vstd::bytes::lemma_auto_spec_u64_to_from_le_bytes();
    }
    if data.len() == 0 {
        proof {
            assert forall|v: InstructionView|
                !(v.wf() && #[trigger] spec_encode_instruction(v) == data@) by {
                if v.wf() {
                    lemma_instruction_layout(v);
                }
            }
        }
        return Err(SubscriptionError::DataTypeMismatch);
    }
    let s = data.as_slice();
    let tag = data[0];

    if tag == 0 {
        // Creation: two counted lists, two identifiers, two amounts.
        if data.len() < 89 {
            proof {
                refute_all_encodings(data@, 0);
            }
            return Err(SubscriptionError::DataTypeMismatch);
        }
        let n32 = u32_from_le_bytes(slice_subrange(s, 1, 5));
        if ((data.len() as u64) - 9) / 32 < n32 as u64 {
            proof {
                refute_all_encodings(data@, 0);
            }
            return Err(SubscriptionError::DataTypeMismatch);
        }
        let n = n32 as usize;
        let m32 = u32_from_le_bytes(slice_subrange(s, 5 + 32 * n, 9 + 32 * n));
        if (data.len() as u64) != 89 + 32 * (n32 as u64) + (m32 as u64) {
            proof {
                refute_all_encodings(data@, 0);
            }
            return Err(SubscriptionError::DataTypeMismatch);
        }
        let m = m32 as usize;

        let mut owner_addresses: Vec<Address> = Vec::new();
        let mut i: usize = 0;
        while i < n
            invariant
                i <= n,
                s@ == data@,
                data@.len() == 89 + 32 * (n as int) + m as int,
                data@.len() <= usize::MAX,
                owner_addresses@.len() == i,
                forall|j: int| 0 <= j < i ==> (#[trigger] owner_addresses@[j])@.len() == 32,
                address_list_bytes(owner_addresses@.map_values(|a: Address| a@))
                    == data@.subrange(5, 5 + 32 * i as int),
            decreases n - i,
        {
            let ghost built = owner_addresses@.map_values(|a: Address| a@);
            let address = Address {
                bytes: vstd::slice::slice_to_vec(slice_subrange(s, 5 + 32 * i, 37 + 32 * i)),
            };
            let ghost address_view = address@;
            owner_addresses.push(address);
            proof {
                assert(owner_addresses@.map_values(|a: Address| a@) =~= built.push(address_view));
                lemma_address_list_bytes_push(built, address_view);
                assert(data@.subrange(5, 5 + 32 * i as int) + data@.subrange(
                    5 + 32 * i as int,
                    5 + 32 * (i + 1) as int,
                ) =~= data@.subrange(5, 5 + 32 * (i + 1) as int));
            }
            i = i + 1;
        }

        let owner_shares: Vec<u8> = vstd::slice::slice_to_vec(
            slice_subrange(s, 9 + 32 * n, 9 + 32 * n + m),
        );
        let token_mint = Address {
            bytes: vstd::slice::slice_to_vec(
                slice_subrange(s, 9 + 32 * n + m, 41 + 32 * n + m),
            ),
        };
        let resource = Address {
            bytes: vstd::slice::slice_to_vec(
                slice_subrange(s, 41 + 32 * n + m, 73 + 32 * n + m),
            ),
        };
        let price = u64_from_le_bytes(slice_subrange(s, 73 + 32 * n + m, 81 + 32 * n + m));
        let period_duration = u64_from_le_bytes(
            slice_subrange(s, 81 + 32 * n + m, 89 + 32 * n + m),
        );

        let instruction = SubscriptionInstruction::CreateSubscription(
            CreateSubscriptionArgs {
                owner_addresses,
                owner_shares,
                token_mint,
                resource,
                price,
                period_duration,
            },
        );
        proof {
            lemma_decoded_create_exact(instruction@, data@, n32, m32);
        }
        Ok(instruction)
    } else if tag == 1 {
        // Withdrawal: a resource identifier and an amount.
        if data.len() != 41 {
            proof {
                refute_all_encodings(data@, 1);
            }
            return Err(SubscriptionError::DataTypeMismatch);
        }
        let resource = Address { bytes: vstd::slice::slice_to_vec(slice_subrange(s, 1, 33)) };
        let amount = u64_from_le_bytes(slice_subrange(s, 33, 41));
        let instruction = SubscriptionInstruction::WithdrawFunds(
            WithdrawFundsArgs { resource, amount },
        );
        proof {
            lemma_instruction_layout(instruction@);
            assert(spec_encode_instruction(instruction@) =~= data@);
            assert forall|v: InstructionView|
                v.wf() && #[trigger] spec_encode_instruction(v) == data@ implies v
                == instruction@ by {
                lemma_instruction_layout(v);
                match v {
                    InstructionView::Create { .. } => {
                        assert(spec_encode_instruction(v)[0] == 0u8);
                    },
                    InstructionView::Withdraw { resource, amount } => {
                        assert(resource == data@.subrange(1, 33));
                        assert(spec_u64_to_le_bytes(amount) == data@.subrange(33, 41));
                    },
                    InstructionView::Pay { .. } => {
                        assert(spec_encode_instruction(v)[0] == 2u8);
                    },
                }
            }
        }
        Ok(instruction)
    } else if tag == 2 {
        // Payment: a resource identifier alone.
        if data.len() != 33 {
            proof {
                refute_all_encodings(data@, 2);
            }
            return Err(SubscriptionError::DataTypeMismatch);
        }
        let resource = Address { bytes: vstd::slice::slice_to_vec(slice_subrange(s, 1, 33)) };
        let instruction = SubscriptionInstruction::PaySubscription(
            PaySubscriptionArgs { resource },
        );
        proof {
            lemma_instruction_layout(instruction@);
            assert(spec_encode_instruction(instruction@) =~= data@);
            assert forall|v: InstructionView|
                v.wf() && #[trigger] spec_encode_instruction(v) == data@ implies v
                == instruction@ by {
                lemma_instruction_layout(v);
                match v {
                    InstructionView::Create { .. } => {
                        assert(spec_encode_instruction(v)[0] == 0u8);
                    },
                    InstructionView::Withdraw { .. } => {
                        assert(spec_encode_instruction(v)[0] == 1u8);
                    },
                    InstructionView::Pay { resource } => {
                        assert(resource == data@.subrange(1, 33));
                    },
                }
            }
        }
        Ok(instruction)
    } else {
        proof {
            assert forall|v: InstructionView|
                !(v.wf() && #[trigger] spec_encode_instruction(v) == data@) by {
                if v.wf() {
                    lemma_instruction_layout(v);
                }
            }
        }
        Err(SubscriptionError::DataTypeMismatch)
    }
}

/// No well-formed operation whose wire form carries `tag` encodes
/// `data`: called at a rejecting exit of the decoder once the sizes or
/// counts have been found inconsistent.
proof fn refute_all_encodings(data: Seq<u8>, tag: u8)
    requires
        data.len() >= 1,
        data[0] == tag,
        tag == 0 ==> data.len() < 89 || {
            let n = spec_u32_from_le_bytes(data.subrange(1, 5)) as int;
            data.len() < 9 + 32 * n || {
                let m = spec_u32_from_le_bytes(
                    data.subrange(5 + 32 * n, 9 + 32 * n),
                ) as int;
                data.len() != 89 + 32 * n + m
            }
        },
        tag == 1 ==> data.len() != 41,
        tag == 2 ==> data.len() != 33,
    ensures
        forall|v: InstructionView|
            !(v.wf() && #[trigger] spec_encode_instruction(v) == data),
{
    vstd::bytes::lemma_auto_spec_u32_to_from_le_bytes();
    assert forall|v: InstructionView|
        !(v.wf() && #[trigger] spec_encode_instruction(v) == data) by {
        if v.wf() && spec_encode_instruction(v) == data {
            lemma_instruction_layout(v);
            match v {
                InstructionView::Create { owner_addresses, owner_shares, .. } => {
                    let n = owner_addresses.len() as int;
                    let m = owner_shares.len() as int;
                    assert(data[0] == 0u8);
                    assert(spec_u32_to_le_bytes(owner_addresses.len() as u32) == data.subrange(
                        1,
                        5,
                    ));
                    assert(spec_u32_from_le_bytes(data.subrange(1, 5)) as int == n);
                    assert(spec_u32_to_le_bytes(owner_shares.len() as u32) == data.subrange(
                        5 + 32 * n,
                        9 + 32 * n,
                    ));
                    assert(spec_u32_from_le_bytes(data.subrange(5 + 32 * n, 9 + 32 * n)) as int
                        == m);
                    assert(data.len() == 89 + 32 * n + m);
                },
                InstructionView::Withdraw { .. } => {
                    assert(data[0] == 1u8);
                    assert(data.len() == 41);
                },
                InstructionView::Pay { .. } => {
                    assert(data[0] == 2u8);
                    assert(data.len() == 33);
                },
            }
        }
    }
}

/// The role table of a creation call: the creating signer, the
/// uninitialized target record at the derived identifier, the
/// storage-rent oracle, and the allocator service.
pub fn create_subscription_instruction(
    program_id: &Address,
    owner_pubkey: &Address,
    rent_sysvar_id: &Address,
    system_program_id: &Address,
    args: CreateSubscriptionArgs,
) -> (r: Result<(Vec<AccountRole>, SubscriptionInstruction), SubscriptionError>)
    requires
        program_id.wf(),
        args.resource.wf(),
    ensures
        (match r {
            Ok((roles, instruction)) => {
                &&& derived_identifier(prefix_seed(), program_id@, args.resource@) matches Some(d)
                    && roles@[1].address@ == d.0
                &&& roles@.len() == 4
                &&& roles@[0].address@ == owner_pubkey@ && roles@[0].is_signer && roles@[0].is_writable
                &&& !roles@[1].is_signer && roles@[1].is_writable
                &&& roles@[2].address@ == rent_sysvar_id@ && !roles@[2].is_signer
                    && !roles@[2].is_writable
                &&& roles@[3].address@ == system_program_id@ && !roles@[3].is_signer
                    && !roles@[3].is_writable
                &&& instruction == SubscriptionInstruction::CreateSubscription(args)
            },
            Err(e) => e == SubscriptionError::DerivedKeyInvalid && derived_identifier(
                prefix_seed(),
                program_id@,
                args.resource@,
            ) is None,
        }),
{
    let namespace = crate::identity::prefix_seed_bytes();
    let (subscription_pubkey, _) = match crate::identity::derive(
        &namespace,
        program_id,
        &args.resource,
    ) {
        Ok(p) => p,
        Err(e) => {
            return Err(e);
        },
    };
    let mut roles: Vec<AccountRole> = Vec::new();
    roles.push(AccountRole { address: owner_pubkey.clone(), is_signer: true, is_writable: true });
    roles.push(AccountRole { address: subscription_pubkey, is_signer: false, is_writable: true });
    roles.push(
        AccountRole { address: rent_sysvar_id.clone(), is_signer: false, is_writable: false },
    );
    roles.push(
        AccountRole { address: system_program_id.clone(), is_signer: false, is_writable: false },
    );
    Ok((roles, SubscriptionInstruction::CreateSubscription(args)))
}

/// The role table of a payment call: the payer and their funding
/// account, the escrow destination, the target record at the derived
/// identifier, the value-type reference, the transfer-authorizing
/// signer, and the oracles and services the host consults.
pub fn pay_subscription_instruction(
    program_id: &Address,
    payer_pubkey: &Address,
    payer_token_pubkey: &Address,
    subscription_funds_token_pubkey: &Address,
    token_mint_pubkey: &Address,
    transfer_authority: &Address,
    rent_sysvar_id: &Address,
    clock_sysvar_id: &Address,
    system_program_id: &Address,
    token_program_id: &Address,
    args: PaySubscriptionArgs,
) -> (r: Result<(Vec<AccountRole>, SubscriptionInstruction), SubscriptionError>)
    requires
        program_id.wf(),
        args.resource.wf(),
    ensures
        (match r {
            Ok((roles, instruction)) => {
                &&& derived_identifier(prefix_seed(), program_id@, args.resource@) matches Some(d)
                    && roles@[3].address@ == d.0
                &&& roles@.len() == 10
                &&& roles@[0].address@ == payer_pubkey@ && roles@[0].is_signer
                    && roles@[0].is_writable
                &&& roles@[1].address@ == payer_token_pubkey@ && !roles@[1].is_signer
                    && roles@[1].is_writable
                &&& roles@[2].address@ == subscription_funds_token_pubkey@ && !roles@[2].is_signer
                    && roles@[2].is_writable
                &&& !roles@[3].is_signer && roles@[3].is_writable
                &&& roles@[4].address@ == token_mint_pubkey@ && !roles@[4].is_signer
                    && roles@[4].is_writable
                &&& roles@[5].address@ == transfer_authority@ && roles@[5].is_signer
                    && !roles@[5].is_writable
                &&& roles@[6].address@ == rent_sysvar_id@ && !roles@[6].is_signer
                    && !roles@[6].is_writable
                &&& roles@[7].address@ == clock_sysvar_id@ && !roles@[7].is_signer
                    && !roles@[7].is_writable
                &&& roles@[8].address@ == system_program_id@ && !roles@[8].is_signer
                    && !roles@[8].is_writable
                &&& roles@[9].address@ == token_program_id@ && !roles@[9].is_signer
                    && !roles@[9].is_writable
                &&& instruction == SubscriptionInstruction::PaySubscription(args)
            },
            Err(e) => e == SubscriptionError::DerivedKeyInvalid && derived_identifier(
                prefix_seed(),
                program_id@,
                args.resource@,
            ) is None,
        }),
{
    let namespace = crate::identity::prefix_seed_bytes();
    let (subscription_pubkey, _) = match crate::identity::derive(
        &namespace,
        program_id,
        &args.resource,
    ) {
        Ok(p) => p,
        Err(e) => {
            return Err(e);
        },
    };
    let mut roles: Vec<AccountRole> = Vec::new();
    roles.push(AccountRole { address: payer_pubkey.clone(), is_signer: true, is_writable: true });
    roles.push(
        AccountRole { address: payer_token_pubkey.clone(), is_signer: false, is_writable: true },
    );
    roles.push(
        AccountRole {
            address: subscription_funds_token_pubkey.clone(),
            is_signer: false,
            is_writable: true,
        },
    );
    roles.push(AccountRole { address: subscription_pubkey, is_signer: false, is_writable: true });
    roles.push(
        AccountRole { address: token_mint_pubkey.clone(), is_signer: false, is_writable: true },
    );
    roles.push(
        AccountRole { address: transfer_authority.clone(), is_signer: true, is_writable: false },
    );
    roles.push(
        AccountRole { address: rent_sysvar_id.clone(), is_signer: false, is_writable: false },
    );
    roles.push(
        AccountRole { address: clock_sysvar_id.clone(), is_signer: false, is_writable: false },
    );
    roles.push(
        AccountRole { address: system_program_id.clone(), is_signer: false, is_writable: false },
    );
    roles.push(
        AccountRole { address: token_program_id.clone(), is_signer: false, is_writable: false },
    );
    Ok((roles, SubscriptionInstruction::PaySubscription(args)))
}

/// The role table of a withdrawal call: the fee payer, the withdrawing
/// owner, the owner's destination account, the escrow source, the
/// target record at the derived identifier, the value-type reference,
/// and the value-transfer service.
pub fn withdraw_funds_instruction(
    program_id: &Address,
    payer_pubkey: &Address,
    withdrawer_pubkey: &Address,
    withdrawer_token_pubkey: &Address,
    subscription_funds_token: &Address,
    token_mint_pubkey: &Address,
    token_program_id: &Address,
    args: WithdrawFundsArgs,
) -> (r: Result<(Vec<AccountRole>, SubscriptionInstruction), SubscriptionError>)
    requires
        program_id.wf(),
        args.resource.wf(),
    ensures
        (match r {
            Ok((roles, instruction)) => {
                &&& derived_identifier(prefix_seed(), program_id@, args.resource@) matches Some(d)
                    && roles@[4].address@ == d.0
                &&& roles@.len() == 7
                &&& roles@[0].address@ == payer_pubkey@ && roles@[0].is_signer
                    && roles@[0].is_writable
                &&& roles@[1].address@ == withdrawer_pubkey@ && roles@[1].is_signer
                    && roles@[1].is_writable
                &&& roles@[2].address@ == withdrawer_token_pubkey@ && !roles@[2].is_signer
                    && roles@[2].is_writable
                &&& roles@[3].address@ == subscription_funds_token@ && !roles@[3].is_signer
                    && roles@[3].is_writable
                &&& !roles@[4].is_signer && roles@[4].is_writable
                &&& roles@[5].address@ == token_mint_pubkey@ && !roles@[5].is_signer
                    && !roles@[5].is_writable
                &&& roles@[6].address@ == token_program_id@ && !roles@[6].is_signer
                    && !roles@[6].is_writable
                &&& instruction == SubscriptionInstruction::WithdrawFunds(args)
            },
            Err(e) => e == SubscriptionError::DerivedKeyInvalid && derived_identifier(
                prefix_seed(),
                program_id@,
                args.resource@,
            ) is None,
        }),
{
    let namespace = crate::identity::prefix_seed_bytes();
    let (subscription_pubkey, _) = match crate::identity::derive(
        &namespace,
        program_id,
        &args.resource,
    ) {
        Ok(p) => p,
        Err(e) => {
            return Err(e);
        },
    };
    let mut roles: Vec<AccountRole> = Vec::new();
    roles.push(AccountRole { address: payer_pubkey.clone(), is_signer: true, is_writable: true });
    roles.push(
        AccountRole { address: withdrawer_pubkey.clone(), is_signer: true, is_writable: true },
    );
    roles.push(
        AccountRole {
            address: withdrawer_token_pubkey.clone(),
            is_signer: false,
            is_writable: true,
        },
    );
    roles.push(
        AccountRole {
            address: subscription_funds_token.clone(),
            is_signer: false,
            is_writable: true,
        },
    );
    roles.push(AccountRole { address: subscription_pubkey, is_signer: false, is_writable: true });
    roles.push(
        AccountRole { address: token_mint_pubkey.clone(), is_signer: false, is_writable: false },
    );
    roles.push(
        AccountRole { address: token_program_id.clone(), is_signer: false, is_writable: false },
    );
    Ok((roles, SubscriptionInstruction::WithdrawFunds(args)))
}

} // verus!

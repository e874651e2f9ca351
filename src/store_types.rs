use vstd::prelude::*;
use crate::table::{lemma_map_of_update, map_of, unique_keys};
use crate::types::ObjectId;

verus! {

/// A dynamic field: the object it hangs off and the field object's id.
#[derive(Clone, Copy, Debug, PartialEq, Eq, PartialOrd, Ord, Structural)]
pub struct DynamicFieldKey {
    pub parent: ObjectId,
    pub field_id: ObjectId,
}

impl DynamicFieldKey {
    pub fn new(parent: ObjectId, field_id: ObjectId) -> (r: DynamicFieldKey)
        ensures
            r.parent == parent,
            r.field_id == field_id,
    {
        DynamicFieldKey { parent, field_id }
    }
}

/// Objects that describe a coin type.
#[derive(Clone, Copy, Debug, PartialEq, Eq, Structural)]
pub struct CoinInfo {
    pub coin_metadata_object_id: Option<ObjectId>,
    pub treasury_object_id: Option<ObjectId>,
    pub regulated_coin_metadata_object_id: Option<ObjectId>,
}

#[derive(Clone, Copy, Debug, Default, PartialEq, Eq, Structural)]
pub struct BalanceInfo {
    pub balance: u64,
}

/// The type of an object: a package, or a Move struct named by its type.
#[derive(Clone, Debug)]
pub enum ObjectType {
    Package,
    Struct(String),
}

/// An object as a transaction read or wrote it.
#[derive(Clone, Debug)]
pub struct ObjectSummary {
    pub id: ObjectId,
    pub object_type: ObjectType,
}

/// A change to an owner's balance of one coin type.
#[derive(Clone, Debug)]
pub struct BalanceChange {
    pub owner: u64,
    pub coin_type: String,
    pub amount: i128,
}

/// What the indexes keep of one executed transaction.
#[derive(Clone, Debug)]
pub struct TransactionInfo {
    pub checkpoint: u64,
    pub balance_changes: Vec<BalanceChange>,
    /// Type of every object the transaction read or wrote, one entry per id.
    pub object_types: Vec<(ObjectId, ObjectType)>,
}

pub open spec fn type_pairs(objs: Seq<ObjectSummary>) -> Seq<(ObjectId, ObjectType)> {
    Seq::new(objs.len(), |i: int| (objs[i].id, objs[i].object_type))
}

/// Records the type of an object, replacing any type recorded for its id.
fn set_type(list: &mut Vec<(ObjectId, ObjectType)>, id: ObjectId, ty: ObjectType)
    requires
        unique_keys(old(list)@),
    ensures
        unique_keys(final(list)@),
        map_of(final(list)@) == map_of(old(list)@).insert(id, ty),
{
    let mut i: usize = 0;
    while i < list.len()
        invariant
            i <= list@.len(),
            list@ == old(list)@,
            unique_keys(list@),
            forall|j: int| 0 <= j < i ==> (#[trigger] list@[j]).0 != id,
        decreases list@.len() - i,
    {
        if list[i].0 == id {
            proof {
                lemma_map_of_update(list@, i as int, ty);
            }
            list.set(i, (id, ty));
            return;
        }
        i = i + 1;
    }
    let ghost before = list@;
    list.push((id, ty));
    proof {
        assert(list@.drop_last() == before);
        assert forall|a: int, b: int| 0 <= a < b < list@.len() implies (#[trigger] list@[a]).0 != (#[trigger] list@[b]).0 by {
            if b < before.len() {
                assert(before[a] == list@[a]);
                assert(before[b] == list@[b]);
            } else {
                assert(before[a] == list@[a]);
            }
        }
    }
}

impl TransactionInfo {
    /// Collects the type of every object the transaction read or wrote, one
    /// entry per id; where an id was both read and written, the written
    /// object's type is kept.
    pub fn new(
        input_objects: Vec<ObjectSummary>,
        output_objects: Vec<ObjectSummary>,
        balance_changes: Vec<BalanceChange>,
        checkpoint: u64,
    ) -> (r: TransactionInfo)
        ensures
            r.checkpoint == checkpoint,
            r.balance_changes@ == balance_changes@,
            unique_keys(r.object_types@),
            map_of(r.object_types@) == map_of(type_pairs(input_objects@) + type_pairs(output_objects@)),
    {
        let ghost all0 = type_pairs(input_objects@) + type_pairs(output_objects@);
        let mut all = input_objects;
        let mut outputs = output_objects;
        all.append(&mut outputs);
        let ghost pairs = type_pairs(all@);
        proof {
            assert(pairs =~= all0);
        }
        let mut object_types: Vec<(ObjectId, ObjectType)> = Vec::new();
        let ghost mut k: int = 0;
        let ghost objs = all@;
        while all.len() > 0
            invariant
                0 <= k <= objs.len(),
                pairs == type_pairs(objs),
                all@ == objs.subrange(k, objs.len() as int),
                unique_keys(object_types@),
                map_of(object_types@) == map_of(pairs.take(k)),
            decreases all@.len(),
        {
            let o = all.remove(0);
            proof {
                assert(o == objs[k]);
                assert(pairs.take(k + 1).drop_last() =~= pairs.take(k));
                assert(pairs.take(k + 1).last() == (o.id, o.object_type));
            }
            set_type(&mut object_types, o.id, o.object_type);
            proof {
                k = k + 1;
                assert(all@ =~= objs.subrange(k, objs.len() as int));
            }
        }
        proof {
            assert(pairs.take(k) =~= pairs);
        }
        TransactionInfo { checkpoint, balance_changes, object_types }
    }
}

/// What the indexes keep of one epoch.
#[derive(Clone, Copy, Debug, Default, PartialEq, Eq, Structural)]
pub struct EpochInfo {
    pub epoch: u64,
    pub protocol_version: Option<u64>,
    pub start_timestamp_ms: Option<u64>,
    pub end_timestamp_ms: Option<u64>,
    pub start_checkpoint: Option<u64>,
    pub end_checkpoint: Option<u64>,
    pub reference_gas_price: Option<u64>,
}

/// The stake subsidy as the system state stores it.
#[derive(Clone, Copy, Debug, PartialEq, Eq, Structural)]
pub struct StakeSubsidyV1 {
    /// Balance of SUI set aside for stake subsidies.
    pub balance: u64,
    /// Number of times stake subsidies have been distributed.
    pub distribution_counter: u64,
    /// Amount paid out per distribution.
    pub current_distribution_amount: u64,
    /// Distributions per period, before the amount decays.
    pub stake_subsidy_period_length: u64,
    /// Decay of the amount at each period's end, in basis points.
    pub stake_subsidy_decrease_rate: u16,
}

/// Parameters that control the distribution of the stake subsidy, as served.
#[derive(Clone, Copy, Debug, PartialEq, Eq, Structural)]
pub struct StakeSubsidy {
    pub balance: Option<u64>,
    pub distribution_counter: Option<u64>,
    pub current_distribution_amount: Option<u64>,
    pub period_length: Option<u64>,
    pub decrease_rate: Option<u64>,
}

pub fn from_stake_subsidy_v1(value: StakeSubsidyV1) -> (r: StakeSubsidy)
    ensures
        r == (StakeSubsidy {
            balance: Some(value.balance),
            distribution_counter: Some(value.distribution_counter),
            current_distribution_amount: Some(value.current_distribution_amount),
            period_length: Some(value.stake_subsidy_period_length),
            decrease_rate: Some(value.stake_subsidy_decrease_rate as u64),
        }),
{
    StakeSubsidy {
        balance: Some(value.balance),
        distribution_counter: Some(value.distribution_counter),
        current_distribution_amount: Some(value.current_distribution_amount),
        period_length: Some(value.stake_subsidy_period_length),
        decrease_rate: Some(value.stake_subsidy_decrease_rate as u64),
    }
}

/// Errors a validator reports for a request, as far as traffic control tells them apart.
#[derive(Clone, Copy, Debug, PartialEq, Eq, Structural)]
pub enum SuiErrorKind {
    IncorrectUserSignature,
    InvalidSignature,
    SignerSignatureAbsent,
    SignerSignatureNumberMismatch,
    IncorrectSigner,
    UnknownSigner,
    WrongEpoch,
    Other,
}

/// How much a failed request counts against its sender in traffic control.
#[derive(Clone, Copy, Debug, PartialEq, Eq, Structural)]
pub enum Weight {
    Zero,
    One,
}

/// Signature and epoch errors count fully against the sender; others not at all.
pub fn normalize(err: SuiErrorKind) -> (r: Weight)
    ensures
        r == if err == SuiErrorKind::Other {
            Weight::Zero
        } else {
            Weight::One
        },
{
    match err {
        SuiErrorKind::IncorrectUserSignature => Weight::One,
        SuiErrorKind::InvalidSignature
        | SuiErrorKind::SignerSignatureAbsent
        | SuiErrorKind::SignerSignatureNumberMismatch
        | SuiErrorKind::IncorrectSigner
        | SuiErrorKind::UnknownSigner
        | SuiErrorKind::WrongEpoch => Weight::One,
        SuiErrorKind::Other => Weight::Zero,
    }
}

} // verus!

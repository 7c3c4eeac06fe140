//! Coins: minting a coin of the native token, and what an account holds.

use crate::base_types::{ObjectDigest, ObjectID, ObjectRef, Owner, SuiAddress, TransactionDigest};
use crate::collections::seq_view;
use crate::object::{
    gas_coin_type, Data, DataView, MoveObject, MoveObjectView, Object, ObjectView, StructTag,
    StructTagView, TypeTag, FRAMEWORK_PACKAGE_LO,
};
use crate::rpc_types::{Coin, CoinView};
use crate::sandbox::storage::StorageExtension;
use vstd::bytes::{spec_u128_to_le_bytes, spec_u64_to_le_bytes, u128_to_le_bytes, u64_to_le_bytes};
use vstd::prelude::*;
use vstd::string::StringExecFns;

verus! {

/// The version that a new object starts at.
pub const OBJECT_START_VERSION: u64 = 1;

/// The thirty-two bytes of an identifier, the most significant first.
pub open spec fn id_bytes(id: ObjectID) -> Seq<u8> {
    spec_u128_to_le_bytes(id.hi).reverse() + spec_u128_to_le_bytes(id.lo).reverse()
}

/// The type of a coin of the native token.
pub open spec fn gas_coin_tag() -> StructTagView {
    StructTagView {
        address: ObjectID { hi: 0, lo: 2 },
        module: "coin"@,
        name: "Coin"@,
        type_params: seq![gas_coin_type()],
    }
}

/// A new coin of the native token: at the starting version, owned by the
/// account, with no transaction before it, and with the identifier and the
/// amount as its contents.
pub open spec fn gas_coin(id: ObjectID, owner: SuiAddress, amount: u64, digest: ObjectDigest) -> ObjectView {
    ObjectView {
        id,
        version: 1,
        owner: Owner::AddressOwner(owner),
        digest,
        previous_transaction: TransactionDigest { hi: 0, lo: 0 },
        storage_rebate: 0,
        data: DataView::Move(
            MoveObjectView {
                type_: gas_coin_tag(),
                has_public_transfer: true,
                contents: id_bytes(id) + spec_u64_to_le_bytes(amount),
            },
        ),
    }
}

/// A new coin is a coin of the native token that holds the amount.
pub proof fn lemma_gas_coin(id: ObjectID, owner: SuiAddress, amount: u64, digest: ObjectDigest)
    ensures
        gas_coin(id, owner, amount, digest).is_gas_coin(),
        gas_coin(id, owner, amount, digest).coin_value_maybe() == Some(amount),
{
    vstd::bytes::lemma_auto_spec_u64_to_from_le_bytes();
    vstd::bytes::lemma_auto_spec_u128_to_from_le_bytes();
    let contents = id_bytes(id) + spec_u64_to_le_bytes(amount);
    assert(spec_u128_to_le_bytes(id.hi).reverse().len() == 16);
    assert(spec_u128_to_le_bytes(id.lo).reverse().len() == 16);
    assert(contents.len() == 40);
    assert(contents.subrange(32, 40) =~= spec_u64_to_le_bytes(amount));
    reveal_strlit("coin");
    reveal_strlit("Coin");
}

/// What the coins of one currency among the first `upto` objects hold
/// together. A coin whose contents do not decode counts as nothing.
pub open spec fn balance_sum(objects: Seq<ObjectView>, target: Seq<char>, upto: int) -> int
    decreases upto,
{
    if upto <= 0 {
        0
    } else {
        let rest = balance_sum(objects, target, upto - 1);
        let object = objects[upto - 1];
        if object.coin_type_maybe() == Some(target) {
            rest + match object.coin_value_maybe() {
                Some(v) => v as int,
                None => 0,
            }
        } else {
            rest
        }
    }
}

/// The sum over a prefix is not negative and not above the sum over a
/// longer prefix.
pub proof fn lemma_balance_sum_grows(objects: Seq<ObjectView>, target: Seq<char>, a: int, b: int)
    requires
        a <= b,
    ensures
        0 <= balance_sum(objects, target, a) <= balance_sum(objects, target, b),
    decreases b,
{
    if b <= 0 {
    } else if a == b {
        lemma_balance_sum_grows(objects, target, a - 1, b - 1);
    } else {
        lemma_balance_sum_grows(objects, target, a, b - 1);
    }
}

/// The view of a coin of the currency `target`.
pub open spec fn coin_view(object: ObjectView, target: Seq<char>) -> CoinView {
    CoinView {
        coin_type: target,
        coin_object_id: object.id,
        version: object.version,
        digest: object.digest,
        balance: match object.coin_value_maybe() {
            Some(v) => v,
            None => 0,
        },
        previous_transaction: object.previous_transaction,
    }
}

/// The coins of one currency among the first `upto` objects, in order.
pub open spec fn coins_of(objects: Seq<ObjectView>, target: Seq<char>, upto: int) -> Seq<CoinView>
    decreases upto,
{
    if upto <= 0 {
        Seq::empty()
    } else {
        let rest = coins_of(objects, target, upto - 1);
        let object = objects[upto - 1];
        if object.coin_type_maybe() == Some(target) {
            rest.push(coin_view(object, target))
        } else {
            rest
        }
    }
}

/// The coins of the native token among the first `upto` objects, each by
/// its identifier, version and digest.
pub open spec fn gas_payment_of(objects: Seq<ObjectView>, upto: int) -> Seq<ObjectRef>
    decreases upto,
{
    if upto <= 0 {
        Seq::empty()
    } else {
        let rest = gas_payment_of(objects, upto - 1);
        let object = objects[upto - 1];
        if object.is_gas_coin() {
            rest.push(object.object_ref())
        } else {
            rest
        }
    }
}

/// The currency that a query is about: the one that is named, or the
/// native token.
pub open spec fn target_type(coin_type: Option<TypeTag>) -> Seq<char> {
    match coin_type {
        Some(t) => t@,
        None => gas_coin_type(),
    }
}

fn target_of(coin_type: Option<TypeTag>) -> (r: TypeTag)
    ensures
        r@ == target_type(coin_type),
{
    match coin_type {
        Some(t) => t,
        None => String::from_str(
            "0x0000000000000000000000000000000000000000000000000000000000000002::sui::SUI",
        ),
    }
}

fn push_reversed(out: &mut Vec<u8>, bytes: &Vec<u8>)
    ensures
        final(out)@ == old(out)@ + bytes@.reverse(),
{
    let mut i: usize = bytes.len();
    assert(out@ =~= old(out)@ + bytes@.reverse().take(0));
    while i > 0
        invariant
            i <= bytes@.len(),
            out@ == old(out)@ + bytes@.reverse().take(bytes@.len() - i),
        decreases i,
    {
        i -= 1;
        out.push(bytes[i]);
        proof {
            let r = bytes@.reverse();
            let n = bytes@.len() - i;
            assert(r[n - 1] == bytes@[i as int]);
            assert(r.take(n) =~= r.take(n - 1).push(r[n - 1]));
            assert(out@ =~= old(out)@ + r.take(n));
        }
    }
    assert(bytes@.reverse().take(bytes@.len() as int) =~= bytes@.reverse());
}

/// A new coin of the native token.
fn new_gas_coin(id: ObjectID, owner: SuiAddress, amount: u64, digest: ObjectDigest) -> (r: Object)
    ensures
        r@ == gas_coin(id, owner, amount, digest),
{
    let mut contents: Vec<u8> = Vec::new();
    let hi = u128_to_le_bytes(id.hi);
    let lo = u128_to_le_bytes(id.lo);
    push_reversed(&mut contents, &hi);
    push_reversed(&mut contents, &lo);
    let mut tail = u64_to_le_bytes(amount);
    contents.append(&mut tail);
    assert(contents@ =~= id_bytes(id) + spec_u64_to_le_bytes(amount));

    let mut type_params: Vec<TypeTag> = Vec::new();
    type_params.push(
        String::from_str(
            "0x0000000000000000000000000000000000000000000000000000000000000002::sui::SUI",
        ),
    );
    let type_ = StructTag {
        address: ObjectID { hi: 0, lo: FRAMEWORK_PACKAGE_LO },
        module: String::from_str("coin"),
        name: String::from_str("Coin"),
        type_params,
    };
    assert(seq_view(type_.type_params@) =~= seq![gas_coin_type()]);
    Object {
        id,
        version: OBJECT_START_VERSION,
        owner: Owner::AddressOwner(owner),
        digest,
        previous_transaction: TransactionDigest { hi: 0, lo: 0 },
        storage_rebate: 0,
        data: Data::Move(MoveObject { type_, has_public_transfer: true, contents }),
    }
}

/// What a store of objects can say and do about coins.
pub trait CoinExtension {
    /// Whether the store is in a state to be asked.
    spec fn coins_ready(&self) -> bool;

    /// What the account holds of the currency, as far as the ownership
    /// index lists its coins.
    spec fn held(&self, owner: SuiAddress, coin_type: Option<TypeTag>) -> int;

    /// Makes a new coin of the native token for the account and returns its
    /// identifier. The identifier and the digest of the new object are
    /// chosen by the caller.
    fn mint_gas_coin(
        &mut self,
        owner: SuiAddress,
        amount: u64,
        id: ObjectID,
        digest: ObjectDigest,
    ) -> (r: ObjectID)
        requires
            old(self).coins_ready(),
        ensures
            final(self).coins_ready(),
            r == id,
    ;

    /// What the account holds of the currency; of the native token where
    /// none is named.
    fn calculate_balance(&self, owner: SuiAddress, coin_type: Option<TypeTag>) -> (r: u64)
        requires
            self.coins_ready(),
            self.held(owner, coin_type) <= u64::MAX,
        ensures
            r == self.held(owner, coin_type),
    ;

    /// The coins that the account holds of the currency.
    fn get_coins(&self, owner: SuiAddress, coin_type: Option<TypeTag>) -> Vec<Coin>
        requires
            self.coins_ready(),
    ;

    /// The coins of the native token that the account holds, as references
    /// for a gas payment.
    fn get_default_gas_payment(&self, sender: SuiAddress) -> Vec<ObjectRef>
        requires
            self.coins_ready(),
    ;
}

impl StorageExtension {
    /// What the account holds of the currency, or nothing where the sum
    /// does not fit in 64 bits.
    pub fn checked_balance(&self, owner: SuiAddress, coin_type: Option<TypeTag>) -> (r: Option<u64>)
        requires
            self.wf(),
        ensures
            r == if self.held(owner, coin_type) <= u64::MAX {
                Some(self.held(owner, coin_type) as u64)
            } else {
                None
            },
    {
        let ghost objects = self.owned_objects(Owner::AddressOwner(owner));
        let ghost target_text = target_type(coin_type);
        assert(self.held(owner, coin_type) == balance_sum(
            objects,
            target_text,
            objects.len() as int,
        ));
        let target = target_of(coin_type);
        let owned = self.objects_for(&Owner::AddressOwner(owner));
        let mut total: u64 = 0;
        let mut i: usize = 0;
        while i < owned.len()
            invariant
                i <= owned@.len(),
                seq_view(owned@) == objects,
                target@ == target_text,
                total == balance_sum(objects, target_text, i as int),
                self.held(owner, coin_type) == balance_sum(
                    objects,
                    target_text,
                    objects.len() as int,
                ),
            decreases owned@.len() - i,
        {
            let obj = owned[i];
            assert(objects[i as int] == obj@);
            let matches = match obj.coin_type_maybe() {
                Some(tp) => *tp == target,
                None => false,
            };
            if matches {
                let value = match obj.as_coin_maybe() {
                    Some(v) => v,
                    None => 0,
                };
                match total.checked_add(value) {
                    Some(sum) => {
                        total = sum;
                    },
                    None => {
                        proof {
                            assert(balance_sum(objects, target_text, i + 1) == total + value);
                            assert(objects.len() == owned@.len());
                            lemma_balance_sum_grows(
                                objects,
                                target_text,
                                i + 1,
                                objects.len() as int,
                            );
                        }
                        return None;
                    },
                }
            }
            i += 1;
        }
        assert(objects.len() == owned@.len());
        Some(total)
    }
}

impl CoinExtension for StorageExtension {
    open spec fn coins_ready(&self) -> bool {
        self.wf()
    }

    open spec fn held(&self, owner: SuiAddress, coin_type: Option<TypeTag>) -> int {
        balance_sum(
            self.owned_objects(Owner::AddressOwner(owner)),
            target_type(coin_type),
            self.owned_objects(Owner::AddressOwner(owner)).len() as int,
        )
    }

    fn mint_gas_coin(
        &mut self,
        owner: SuiAddress,
        amount: u64,
        id: ObjectID,
        digest: ObjectDigest,
    ) -> (r: ObjectID)
        ensures
            final(self)@ == old(self)@.insert_object(gas_coin(id, owner, amount, digest)),
    {
        let coin = new_gas_coin(id, owner, amount, digest);
        let id = coin.id();
        self.insert_object(coin);

        id
    }

    fn calculate_balance(&self, owner: SuiAddress, coin_type: Option<TypeTag>) -> (r: u64) {
        let ghost held = self.held(owner, coin_type);
        assert(held <= u64::MAX);
        proof {
            let objects = self.owned_objects(Owner::AddressOwner(owner));
            lemma_balance_sum_grows(objects, target_type(coin_type), 0, objects.len() as int);
        }
        match self.checked_balance(owner, coin_type) {
            Some(total) => {
                assert(total == held);
                total
            },
            None => 0,
        }
    }

    fn get_coins(&self, owner: SuiAddress, coin_type: Option<TypeTag>) -> (r: Vec<Coin>)
        ensures
            seq_view(r@) == coins_of(
                self.owned_objects(Owner::AddressOwner(owner)),
                target_type(coin_type),
                self.owned_objects(Owner::AddressOwner(owner)).len() as int,
            ),
    {
        let ghost objects = self.owned_objects(Owner::AddressOwner(owner));
        let ghost target_text = target_type(coin_type);
        let target = target_of(coin_type);
        let owned = self.objects_for(&Owner::AddressOwner(owner));
        let mut coins: Vec<Coin> = Vec::new();
        let mut i: usize = 0;
        assert(seq_view(coins@) =~= coins_of(objects, target_text, 0));
        while i < owned.len()
            invariant
                i <= owned@.len(),
                seq_view(owned@) == objects,
                target@ == target_text,
                seq_view(coins@) == coins_of(objects, target_text, i as int),
            decreases owned@.len() - i,
        {
            let obj = owned[i];
            assert(objects[i as int] == obj@);
            let ghost before = seq_view(coins@);
            let matches = match obj.coin_type_maybe() {
                Some(tp) => *tp == target,
                None => false,
            };
            if matches {
                let coin = object_to_coin(obj, &target);
                coins.push(coin);
                assert(seq_view(coins@) =~= before.push(coin_view(obj@, target_text)));
            }
            i += 1;
        }
        coins
    }

    fn get_default_gas_payment(&self, sender: SuiAddress) -> (r: Vec<ObjectRef>)
        ensures
            r@ == gas_payment_of(
                self.owned_objects(Owner::AddressOwner(sender)),
                self.owned_objects(Owner::AddressOwner(sender)).len() as int,
            ),
    {
        let ghost objects = self.owned_objects(Owner::AddressOwner(sender));
        let owned = self.objects_for(&Owner::AddressOwner(sender));
        let mut payment: Vec<ObjectRef> = Vec::new();
        let mut i: usize = 0;
        assert(payment@ =~= gas_payment_of(objects, 0));
        while i < owned.len()
            invariant
                i <= owned@.len(),
                seq_view(owned@) == objects,
                payment@ == gas_payment_of(objects, i as int),
            decreases owned@.len() - i,
        {
            let obj = owned[i];
            assert(objects[i as int] == obj@);
            if obj.is_gas_coin() {
                payment.push(obj.compute_object_reference());
            }
            i += 1;
        }
        payment
    }
}

fn object_to_coin(object: &Object, coin_type: &TypeTag) -> (r: Coin)
    ensures
        r@ == coin_view(object@, coin_type@),
{
    Coin {
        coin_type: coin_type.clone(),
        coin_object_id: object.id(),
        version: object.version(),
        digest: object.digest(),
        balance: match object.as_coin_maybe() {
            Some(v) => v,
            None => 0,
        },
        previous_transaction: object.previous_transaction,
    }
}

} // verus!

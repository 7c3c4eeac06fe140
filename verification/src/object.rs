//! Objects: the versioned, owned units of ledger state.

use crate::base_types::{
    ObjectDigest, ObjectID, ObjectRef, Owner, SequenceNumber, TransactionDigest,
};
use crate::collections::{clone_vec, seq_view, DeepClone};
use vstd::bytes::{spec_u64_from_le_bytes, spec_u64_to_le_bytes, u64_to_le_bytes};
use vstd::prelude::*;
use vstd::string::StringExecFns;

verus! {

/// A Move type, written in its canonical text form.
pub type TypeTag = String;

/// The identifier of the framework package that defines coins.
pub const FRAMEWORK_PACKAGE_LO: u128 = 2;

/// The identifier of the clock object.
pub const CLOCK_OBJECT_LO: u128 = 6;

/// The length of the identifier that starts the contents of every Move object.
pub const ID_LENGTH: usize = 32;

pub open spec fn framework_package() -> ObjectID {
    ObjectID { hi: 0, lo: 2 }
}

pub open spec fn clock_object_id() -> ObjectID {
    ObjectID { hi: 0, lo: 6 }
}

/// The canonical text of the type of the native token.
pub open spec fn gas_coin_type() -> Seq<char> {
    "0x0000000000000000000000000000000000000000000000000000000000000002::sui::SUI"@
}

/// The name of a Move struct type: where it is defined, and its type arguments.
#[derive(Debug)]
pub struct StructTag {
    pub address: ObjectID,
    pub module: String,
    pub name: String,
    pub type_params: Vec<TypeTag>,
}

pub struct StructTagView {
    pub address: ObjectID,
    pub module: Seq<char>,
    pub name: Seq<char>,
    pub type_params: Seq<Seq<char>>,
}

impl View for StructTag {
    type V = StructTagView;

    open spec fn view(&self) -> StructTagView {
        StructTagView {
            address: self.address,
            module: self.module@,
            name: self.name@,
            type_params: seq_view(self.type_params@),
        }
    }
}

impl DeepClone for StructTag {
    open spec fn valid(&self) -> bool {
        true
    }

    fn deep_clone(&self) -> (r: Self) {
        let r = StructTag {
            address: self.address,
            module: self.module.clone(),
            name: self.name.clone(),
            type_params: self.type_params.clone(),
        };
        assert(seq_view(r.type_params@) =~= seq_view(self.type_params@));
        assert(r.valid());
        r
    }
}

impl StructTagView {
    /// Whether the struct is named `coin::Coin`, in whatever package.
    pub open spec fn names_coin(self) -> bool {
        self.module == "coin"@ && self.name == "Coin"@
    }

    /// The type argument of a struct named `coin::Coin`, if it has one.
    pub open spec fn coin_type(self) -> Option<Seq<char>> {
        if self.names_coin() && self.type_params.len() > 0 {
            Some(self.type_params[0])
        } else {
            None
        }
    }

    /// Whether this is the framework's coin type, of any currency.
    pub open spec fn is_coin(self) -> bool {
        self.address == framework_package() && self.names_coin() && self.type_params.len() == 1
    }
}

fn text_is(s: &String, literal: &str) -> (b: bool)
    ensures
        b == (s@ == literal@),
{
    let other = String::from_str(literal);
    *s == other
}

impl StructTag {
    pub fn names_coin(&self) -> (b: bool)
        ensures
            b == self@.names_coin(),
    {
        text_is(&self.module, "coin") && text_is(&self.name, "Coin")
    }

    pub fn coin_type(&self) -> (r: Option<&TypeTag>)
        ensures
            match r {
                Some(t) => self@.coin_type() == Some(t@),
                None => self@.coin_type() is None,
            },
    {
        if self.names_coin() && self.type_params.len() > 0 {
            Some(&self.type_params[0])
        } else {
            None
        }
    }

    pub fn is_coin(&self) -> (b: bool)
        ensures
            b == self@.is_coin(),
    {
        self.address.hi == 0 && self.address.lo == FRAMEWORK_PACKAGE_LO && self.names_coin()
            && self.type_params.len() == 1
    }
}

/// A value of a Move struct type, with its contents in their binary form.
#[derive(Debug)]
pub struct MoveObject {
    pub type_: StructTag,
    pub has_public_transfer: bool,
    pub contents: Vec<u8>,
}

pub struct MoveObjectView {
    pub type_: StructTagView,
    pub has_public_transfer: bool,
    pub contents: Seq<u8>,
}

impl View for MoveObject {
    type V = MoveObjectView;

    open spec fn view(&self) -> MoveObjectView {
        MoveObjectView {
            type_: self.type_@,
            has_public_transfer: self.has_public_transfer,
            contents: self.contents@,
        }
    }
}

impl DeepClone for MoveObject {
    open spec fn valid(&self) -> bool {
        true
    }

    fn deep_clone(&self) -> (r: Self) {
        let r = MoveObject {
            type_: self.type_.deep_clone(),
            has_public_transfer: self.has_public_transfer,
            contents: self.contents.deep_clone(),
        };
        assert(r.valid());
        r
    }
}

/// One compiled module of a package.
#[derive(Debug)]
pub struct MoveModule {
    pub name: String,
    pub bytes: Vec<u8>,
}

pub struct MoveModuleView {
    pub name: Seq<char>,
    pub bytes: Seq<u8>,
}

impl View for MoveModule {
    type V = MoveModuleView;

    open spec fn view(&self) -> MoveModuleView {
        MoveModuleView { name: self.name@, bytes: self.bytes@ }
    }
}

impl DeepClone for MoveModule {
    open spec fn valid(&self) -> bool {
        true
    }

    fn deep_clone(&self) -> (r: Self) {
        let r = MoveModule { name: self.name.clone(), bytes: self.bytes.deep_clone() };
        assert(r.valid());
        r
    }
}

/// A published package: its modules by name, and its linkage tables in
/// their binary form.
#[derive(Debug)]
pub struct MovePackage {
    pub modules: Vec<MoveModule>,
    pub tables: Vec<u8>,
}

pub struct MovePackageView {
    pub modules: Seq<MoveModuleView>,
    pub tables: Seq<u8>,
}

impl View for MovePackage {
    type V = MovePackageView;

    open spec fn view(&self) -> MovePackageView {
        MovePackageView { modules: seq_view(self.modules@), tables: self.tables@ }
    }
}

impl DeepClone for MovePackage {
    open spec fn valid(&self) -> bool {
        true
    }

    fn deep_clone(&self) -> (r: Self) {
        let r = MovePackage { modules: clone_vec(&self.modules), tables: self.tables.deep_clone() };
        assert(r.valid());
        r
    }
}

impl MovePackageView {
    /// The names of the modules, in the order in which the package holds them.
    pub open spec fn module_names(self) -> Seq<Seq<char>> {
        self.modules.map_values(|m: MoveModuleView| m.name)
    }
}

/// What an object holds: a Move value or a package.
#[derive(Debug)]
pub enum Data {
    Move(MoveObject),
    Package(MovePackage),
}

pub enum DataView {
    Move(MoveObjectView),
    Package(MovePackageView),
}

impl View for Data {
    type V = DataView;

    open spec fn view(&self) -> DataView {
        match self {
            Data::Move(m) => DataView::Move(m@),
            Data::Package(p) => DataView::Package(p@),
        }
    }
}

impl DeepClone for Data {
    open spec fn valid(&self) -> bool {
        true
    }

    fn deep_clone(&self) -> (r: Self) {
        let r = match self {
            Data::Move(m) => Data::Move(m.deep_clone()),
            Data::Package(p) => Data::Package(p.deep_clone()),
        };
        assert(r.valid());
        r
    }
}

/// One version of an object.
#[derive(Debug)]
pub struct Object {
    pub id: ObjectID,
    pub version: SequenceNumber,
    pub owner: Owner,
    pub digest: ObjectDigest,
    pub previous_transaction: TransactionDigest,
    pub storage_rebate: u64,
    pub data: Data,
}

pub struct ObjectView {
    pub id: ObjectID,
    pub version: SequenceNumber,
    pub owner: Owner,
    pub digest: ObjectDigest,
    pub previous_transaction: TransactionDigest,
    pub storage_rebate: u64,
    pub data: DataView,
}

impl View for Object {
    type V = ObjectView;

    open spec fn view(&self) -> ObjectView {
        ObjectView {
            id: self.id,
            version: self.version,
            owner: self.owner,
            digest: self.digest,
            previous_transaction: self.previous_transaction,
            storage_rebate: self.storage_rebate,
            data: self.data@,
        }
    }
}

impl DeepClone for Object {
    open spec fn valid(&self) -> bool {
        true
    }

    fn deep_clone(&self) -> (r: Self) {
        let r = Object {
            id: self.id,
            version: self.version,
            owner: self.owner,
            digest: self.digest,
            previous_transaction: self.previous_transaction,
            storage_rebate: self.storage_rebate,
            data: self.data.deep_clone(),
        };
        assert(r.valid());
        r
    }
}

/// The 64-bit number that follows the identifier in contents of forty
/// bytes; nothing for contents of any other length.
pub open spec fn trailing_u64(contents: Seq<u8>) -> Option<u64> {
    if contents.len() == 40 {
        Some(spec_u64_from_le_bytes(contents.subrange(32, 40)))
    } else {
        None
    }
}

/// Contents of forty bytes with the number that follows the identifier
/// replaced by `value`.
pub open spec fn with_trailing_u64(contents: Seq<u8>, value: u64) -> Seq<u8> {
    contents.subrange(0, 32) + spec_u64_to_le_bytes(value)
}

/// Rewriting the trailing number and reading it back gives the number written.
pub proof fn lemma_trailing_u64_round_trip(contents: Seq<u8>, value: u64)
    requires
        contents.len() == 40,
    ensures
        with_trailing_u64(contents, value).len() == 40,
        trailing_u64(with_trailing_u64(contents, value)) == Some(value),
        with_trailing_u64(contents, value).subrange(0, 32) == contents.subrange(0, 32),
{
    vstd::bytes::lemma_auto_spec_u64_to_from_le_bytes();
    let w = with_trailing_u64(contents, value);
    assert(w.subrange(32, 40) =~= spec_u64_to_le_bytes(value));
    assert(w.subrange(0, 32) =~= contents.subrange(0, 32));
}

/// Decodes contents as an identifier of thirty-two bytes followed by a
/// 64-bit number, with `bcs::from_bytes`. The decoder reads the identifier
/// byte by byte, reads the number as eight little-endian bytes, and rejects
/// input that is shorter or that has bytes left over: so it succeeds exactly
/// on forty bytes, with the number that the last eight of them encode.
#[verifier::external_body]
fn decode_id_and_u64(contents: &[u8]) -> (r: Option<u64>)
    ensures
        r == trailing_u64(contents@),
{
    bcs::from_bytes::<([u8; 32], u64)>(contents).ok().map(|pair| pair.1)
}

impl ObjectView {
    /// The struct type of a Move object; nothing for a package.
    pub open spec fn struct_tag(self) -> Option<StructTagView> {
        match self.data {
            DataView::Move(m) => Some(m.type_),
            DataView::Package(_) => None,
        }
    }

    pub open spec fn is_package(self) -> bool {
        self.data is Package
    }

    /// Whether the object is a coin of the framework, of any currency.
    pub open spec fn is_coin(self) -> bool {
        match self.data {
            DataView::Move(m) => m.type_.is_coin(),
            DataView::Package(_) => false,
        }
    }

    /// The currency of a coin of the framework.
    pub open spec fn coin_type_maybe(self) -> Option<Seq<char>> {
        match self.data {
            DataView::Move(m) => if m.type_.is_coin() {
                Some(m.type_.type_params[0])
            } else {
                None
            },
            DataView::Package(_) => None,
        }
    }

    /// Whether the object is a coin of the native token.
    pub open spec fn is_gas_coin(self) -> bool {
        self.coin_type_maybe() == Some(gas_coin_type())
    }

    /// The number held after the identifier, for a Move object whose
    /// contents are an identifier and one 64-bit number: the balance of a
    /// coin, the time of the clock.
    pub open spec fn trailing_value(self) -> Option<u64> {
        match self.data {
            DataView::Move(m) => trailing_u64(m.contents),
            DataView::Package(_) => None,
        }
    }

    /// The balance of a coin of the framework whose contents decode;
    /// nothing for any other object.
    pub open spec fn coin_value_maybe(self) -> Option<u64> {
        if self.is_coin() {
            self.trailing_value()
        } else {
            None
        }
    }

    pub open spec fn object_ref(self) -> ObjectRef {
        (self.id, self.version, self.digest)
    }

    /// The names of the modules of a package; none for a Move object.
    pub open spec fn module_names(self) -> Seq<Seq<char>> {
        match self.data {
            DataView::Move(_) => Seq::empty(),
            DataView::Package(p) => p.module_names(),
        }
    }
}

impl Object {
    pub fn id(&self) -> (r: ObjectID)
        ensures
            r == self@.id,
    {
        self.id
    }

    pub fn version(&self) -> (r: SequenceNumber)
        ensures
            r == self@.version,
    {
        self.version
    }

    pub fn owner(&self) -> (r: &Owner)
        ensures
            *r == self@.owner,
    {
        &self.owner
    }

    pub fn digest(&self) -> (r: ObjectDigest)
        ensures
            r == self@.digest,
    {
        self.digest
    }

    pub fn compute_object_reference(&self) -> (r: ObjectRef)
        ensures
            r == self@.object_ref(),
    {
        (self.id, self.version, self.digest)
    }

    pub fn is_address_owned(&self) -> (b: bool)
        ensures
            b == (self@.owner is AddressOwner),
    {
        self.owner.is_address_owned()
    }

    pub fn is_child_object(&self) -> (b: bool)
        ensures
            b == (self@.owner is ObjectOwner),
    {
        self.owner.is_child_object()
    }

    pub fn is_package(&self) -> (b: bool)
        ensures
            b == self@.is_package(),
    {
        match &self.data {
            Data::Move(_) => false,
            Data::Package(_) => true,
        }
    }

    pub fn struct_tag(&self) -> (r: Option<&StructTag>)
        ensures
            match r {
                Some(t) => self@.struct_tag() == Some(t@),
                None => self@.struct_tag() is None,
            },
    {
        match &self.data {
            Data::Move(m) => Some(&m.type_),
            Data::Package(_) => None,
        }
    }

    pub fn is_coin(&self) -> (b: bool)
        ensures
            b == self@.is_coin(),
    {
        match &self.data {
            Data::Move(m) => m.type_.is_coin(),
            Data::Package(_) => false,
        }
    }

    pub fn coin_type_maybe(&self) -> (r: Option<&TypeTag>)
        ensures
            match r {
                Some(t) => self@.coin_type_maybe() == Some(t@),
                None => self@.coin_type_maybe() is None,
            },
    {
        match &self.data {
            Data::Move(m) => if m.type_.is_coin() {
                Some(&m.type_.type_params[0])
            } else {
                None
            },
            Data::Package(_) => None,
        }
    }

    pub fn is_gas_coin(&self) -> (b: bool)
        ensures
            b == self@.is_gas_coin(),
    {
        match self.coin_type_maybe() {
            Some(t) => text_is(
                t,
                "0x0000000000000000000000000000000000000000000000000000000000000002::sui::SUI",
            ),
            None => false,
        }
    }

    /// The number that follows the identifier in the contents of a Move
    /// object, where the contents are an identifier and one number.
    pub fn trailing_value(&self) -> (r: Option<u64>)
        ensures
            r == self@.trailing_value(),
    {
        match &self.data {
            Data::Move(m) => decode_id_and_u64(m.contents.as_slice()),
            Data::Package(_) => None,
        }
    }

    /// The balance of a coin; nothing for an object that is no coin or
    /// whose contents do not decode.
    pub fn as_coin_maybe(&self) -> (r: Option<u64>)
        ensures
            r == self@.coin_value_maybe(),
    {
        if self.is_coin() {
            self.trailing_value()
        } else {
            None
        }
    }

    /// The names of the modules of a package, in the package's order.
    pub fn module_names(&self) -> (r: Vec<String>)
        ensures
            seq_view(r@) == self@.module_names(),
    {
        let mut names: Vec<String> = Vec::new();
        match &self.data {
            Data::Move(_) => {
                assert(seq_view(names@) =~= self@.module_names());
            },
            Data::Package(p) => {
                let mut i: usize = 0;
                while i < p.modules.len()
                    invariant
                        i <= p.modules.len(),
                        names.len() == i,
                        forall|j: int| 0 <= j < i ==> (#[trigger] names@[j])@ == p.modules@[j].name@,
                    decreases p.modules.len() - i,
                {
                    names.push(p.modules[i].name.clone());
                    i += 1;
                }
                assert(seq_view(names@) =~= self@.module_names());
            },
        }
        names
    }

    /// A copy of a Move object of forty bytes of contents in which the
    /// number after the identifier is `value`; every other field, the
    /// digest included, is carried over as it is.
    pub fn with_trailing_value(&self, value: u64) -> (r: Object)
        requires
            self@.trailing_value() is Some,
        ensures
            r@.trailing_value() == Some(value),
            r@.data is Move,
            r@.data->Move_0.contents == with_trailing_u64(self@.data->Move_0.contents, value),
            r@.data->Move_0.type_ == self@.data->Move_0.type_,
            r@.data->Move_0.has_public_transfer == self@.data->Move_0.has_public_transfer,
            r@ == (ObjectView { data: r@.data, ..self@ }),
    {
        match &self.data {
            Data::Move(m) => {
                let mut contents: Vec<u8> = Vec::new();
                let mut i: usize = 0;
                while i < ID_LENGTH
                    invariant
                        i <= ID_LENGTH,
                        m.contents@.len() == 40,
                        contents@ == m.contents@.subrange(0, i as int),
                    decreases ID_LENGTH - i,
                {
                    contents.push(m.contents[i]);
                    assert(contents@ =~= m.contents@.subrange(0, i + 1));
                    i += 1;
                }
                let mut tail = u64_to_le_bytes(value);
                contents.append(&mut tail);
                proof {
                    lemma_trailing_u64_round_trip(m.contents@, value);
                }
                Object {
                    id: self.id,
                    version: self.version,
                    owner: self.owner,
                    digest: self.digest,
                    previous_transaction: self.previous_transaction,
                    storage_rebate: self.storage_rebate,
                    data: Data::Move(
                        MoveObject {
                            type_: m.type_.deep_clone(),
                            has_public_transfer: m.has_public_transfer,
                            contents,
                        },
                    ),
                }
            },
            Data::Package(_) => {
                proof {
                    assert(false);
                }
                self.deep_clone()
            },
        }
    }
}


/// The objects of `objects` by their identifiers: of two with one
/// identifier, the later.
pub open spec fn by_id(objects: Seq<ObjectView>) -> Map<ObjectID, ObjectView>
    decreases objects.len(),
{
    if objects.len() == 0 {
        Map::empty()
    } else {
        by_id(objects.drop_last()).insert(objects.last().id, objects.last())
    }
}


/// Whether no two of the objects have the same identifier.
pub open spec fn ids_distinct(objects: Seq<ObjectView>) -> bool {
    forall|i: int, j: int|
        0 <= i < j < objects.len() ==> (#[trigger] objects[i]).id != (#[trigger] objects[j]).id
}

/// The identifiers of the objects, in order.
pub open spec fn ids_of(objects: Seq<ObjectView>) -> Seq<ObjectID> {
    objects.map_values(|o: ObjectView| o.id)
}

/// Every identifier that `by_id` holds is the identifier of one of the
/// objects.
pub proof fn lemma_by_id_has(objects: Seq<ObjectView>, id: ObjectID)
    requires
        by_id(objects).contains_key(id),
    ensures
        exists|j: int| 0 <= j < objects.len() && (#[trigger] objects[j]).id == id,
    decreases objects.len(),
{
    if objects.len() > 0 {
        if objects.last().id == id {
            assert(objects[objects.len() - 1].id == id);
        } else {
            lemma_by_id_has(objects.drop_last(), id);
            let j = choose|j: int|
                0 <= j < objects.drop_last().len() && (#[trigger] objects.drop_last()[j]).id == id;
            assert(objects[j].id == id);
        }
    }
}

/// Where no two objects have the same identifier, `by_id` holds each
/// under its identifier.
pub proof fn lemma_by_id_distinct(objects: Seq<ObjectView>, i: int)
    requires
        ids_distinct(objects),
        0 <= i < objects.len(),
    ensures
        by_id(objects).contains_key(objects[i].id),
        by_id(objects)[objects[i].id] == objects[i],
    decreases objects.len(),
{
    let n = objects.len() - 1;
    if i < n {
        let before = objects.drop_last();
        assert(ids_distinct(before)) by {
            assert forall|a: int, b: int| 0 <= a < b < before.len() implies (#[trigger] before[a]).id
                != (#[trigger] before[b]).id by {
                assert(before[a] == objects[a] && before[b] == objects[b]);
            }
        }
        lemma_by_id_distinct(before, i);
        assert(before[i] == objects[i]);
        assert(objects[i].id != objects[n].id);
    }
}

} // verus!

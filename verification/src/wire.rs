//! The binary forms of the values of the ledger.

use crate::base_types::{ObjectDigest, ObjectID, Owner, SuiAddress, TransactionDigest};
use crate::codec::{
    all_fit, all_valid, get_list, get_opt, get_opt_list, lemma_concat_assoc, lemma_read_wire_list,
    lemma_read_wire_opt, lemma_read_wire_opt_list, opt_fits, opt_list_fits, opt_list_valid,
    opt_valid, put_list, put_opt, put_opt_list, read_list, read_opt, read_opt_list, wire_list,
    wire_opt, wire_opt_list, Reader, Wire,
};
use crate::collections::DeepClone;
use crate::object::{
    Data, DataView, MoveModule, MoveModuleView, MoveObject, MoveObjectView, MovePackage,
    MovePackageView, Object, ObjectView, StructTag, StructTagView,
};
use crate::rpc_types::{
    BalanceChange, BalanceChangeView, ObjectChange, ObjectChangeView, TransactionBlockResponse,
    TransactionBlockResponseView,
};
use crate::sandbox::storage::indices::{
    MoveCallSignature, MoveCallSignatureView, TransactionIndices, IndicesView,
};
use crate::collections::{KeySet, VecMap};
use crate::sandbox::storage::indices::DigestSet;
use crate::sandbox::storage::snapshot::StorageSnapshot;
use crate::sandbox::storage::timeline::ObjectTimeline;
use crate::sandbox::storage::StorageView;
use vstd::prelude::*;

verus! {

impl Wire for ObjectID {
    open spec fn fits(&self) -> bool {
        &&& self.hi.fits()
        &&& self.lo.fits()
    }

    open spec fn wire(&self) -> Seq<u8> {
        self.hi.wire() + self.lo.wire()
    }

    open spec fn read(bytes: Seq<u8>) -> Option<(ObjectID, Seq<u8>)> {
        match u128::read(bytes) {
            Some((hi, after_hi)) => match u128::read(after_hi) {
                Some((lo, after_lo)) => Some((ObjectID { hi, lo }, after_lo)),
                None => None,
            },
            None => None,
        }
    }

    proof fn lemma_read_wire(&self, rest: Seq<u8>) {
        let p_1 = self.hi.wire();
        let tail_2 = rest;
        let tail_1 = self.lo.wire() + tail_2;
        self.hi.lemma_read_wire(tail_1);
        self.lo.lemma_read_wire(tail_2);
        lemma_concat_assoc(p_1, self.lo.wire(), tail_2);
        assert(self.wire() + rest == p_1 + tail_1);
    }

    fn encode(&self, out: &mut Vec<u8>) {
        let ghost o = old(out)@;
        let ghost p_1 = self.hi.wire();
        self.hi.encode(out);
        self.lo.encode(out);
        proof {
            lemma_concat_assoc(o, p_1, self.lo.wire());
        }
        assert(out@ == o + self.wire());
    }

    fn decode(reader: &mut Reader<'_>) -> (r: Option<Self>) {
        let hi = match u128::decode(reader) {
            Some(v) => v,
            None => {
                return None;
            },
        };
        let lo = match u128::decode(reader) {
            Some(v) => v,
            None => {
                return None;
            },
        };
        let r = ObjectID { hi, lo };
        assert(r.valid());
        Some(r)
    }
}

impl Wire for SuiAddress {
    open spec fn fits(&self) -> bool {
        &&& self.hi.fits()
        &&& self.lo.fits()
    }

    open spec fn wire(&self) -> Seq<u8> {
        self.hi.wire() + self.lo.wire()
    }

    open spec fn read(bytes: Seq<u8>) -> Option<(SuiAddress, Seq<u8>)> {
        match u128::read(bytes) {
            Some((hi, after_hi)) => match u128::read(after_hi) {
                Some((lo, after_lo)) => Some((SuiAddress { hi, lo }, after_lo)),
                None => None,
            },
            None => None,
        }
    }

    proof fn lemma_read_wire(&self, rest: Seq<u8>) {
        let p_1 = self.hi.wire();
        let tail_2 = rest;
        let tail_1 = self.lo.wire() + tail_2;
        self.hi.lemma_read_wire(tail_1);
        self.lo.lemma_read_wire(tail_2);
        lemma_concat_assoc(p_1, self.lo.wire(), tail_2);
        assert(self.wire() + rest == p_1 + tail_1);
    }

    fn encode(&self, out: &mut Vec<u8>) {
        let ghost o = old(out)@;
        let ghost p_1 = self.hi.wire();
        self.hi.encode(out);
        self.lo.encode(out);
        proof {
            lemma_concat_assoc(o, p_1, self.lo.wire());
        }
        assert(out@ == o + self.wire());
    }

    fn decode(reader: &mut Reader<'_>) -> (r: Option<Self>) {
        let hi = match u128::decode(reader) {
            Some(v) => v,
            None => {
                return None;
            },
        };
        let lo = match u128::decode(reader) {
            Some(v) => v,
            None => {
                return None;
            },
        };
        let r = SuiAddress { hi, lo };
        assert(r.valid());
        Some(r)
    }
}

impl Wire for TransactionDigest {
    open spec fn fits(&self) -> bool {
        &&& self.hi.fits()
        &&& self.lo.fits()
    }

    open spec fn wire(&self) -> Seq<u8> {
        self.hi.wire() + self.lo.wire()
    }

    open spec fn read(bytes: Seq<u8>) -> Option<(TransactionDigest, Seq<u8>)> {
        match u128::read(bytes) {
            Some((hi, after_hi)) => match u128::read(after_hi) {
                Some((lo, after_lo)) => Some((TransactionDigest { hi, lo }, after_lo)),
                None => None,
            },
            None => None,
        }
    }

    proof fn lemma_read_wire(&self, rest: Seq<u8>) {
        let p_1 = self.hi.wire();
        let tail_2 = rest;
        let tail_1 = self.lo.wire() + tail_2;
        self.hi.lemma_read_wire(tail_1);
        self.lo.lemma_read_wire(tail_2);
        lemma_concat_assoc(p_1, self.lo.wire(), tail_2);
        assert(self.wire() + rest == p_1 + tail_1);
    }

    fn encode(&self, out: &mut Vec<u8>) {
        let ghost o = old(out)@;
        let ghost p_1 = self.hi.wire();
        self.hi.encode(out);
        self.lo.encode(out);
        proof {
            lemma_concat_assoc(o, p_1, self.lo.wire());
        }
        assert(out@ == o + self.wire());
    }

    fn decode(reader: &mut Reader<'_>) -> (r: Option<Self>) {
        let hi = match u128::decode(reader) {
            Some(v) => v,
            None => {
                return None;
            },
        };
        let lo = match u128::decode(reader) {
            Some(v) => v,
            None => {
                return None;
            },
        };
        let r = TransactionDigest { hi, lo };
        assert(r.valid());
        Some(r)
    }
}

impl Wire for ObjectDigest {
    open spec fn fits(&self) -> bool {
        &&& self.hi.fits()
        &&& self.lo.fits()
    }

    open spec fn wire(&self) -> Seq<u8> {
        self.hi.wire() + self.lo.wire()
    }

    open spec fn read(bytes: Seq<u8>) -> Option<(ObjectDigest, Seq<u8>)> {
        match u128::read(bytes) {
            Some((hi, after_hi)) => match u128::read(after_hi) {
                Some((lo, after_lo)) => Some((ObjectDigest { hi, lo }, after_lo)),
                None => None,
            },
            None => None,
        }
    }

    proof fn lemma_read_wire(&self, rest: Seq<u8>) {
        let p_1 = self.hi.wire();
        let tail_2 = rest;
        let tail_1 = self.lo.wire() + tail_2;
        self.hi.lemma_read_wire(tail_1);
        self.lo.lemma_read_wire(tail_2);
        lemma_concat_assoc(p_1, self.lo.wire(), tail_2);
        assert(self.wire() + rest == p_1 + tail_1);
    }

    fn encode(&self, out: &mut Vec<u8>) {
        let ghost o = old(out)@;
        let ghost p_1 = self.hi.wire();
        self.hi.encode(out);
        self.lo.encode(out);
        proof {
            lemma_concat_assoc(o, p_1, self.lo.wire());
        }
        assert(out@ == o + self.wire());
    }

    fn decode(reader: &mut Reader<'_>) -> (r: Option<Self>) {
        let hi = match u128::decode(reader) {
            Some(v) => v,
            None => {
                return None;
            },
        };
        let lo = match u128::decode(reader) {
            Some(v) => v,
            None => {
                return None;
            },
        };
        let r = ObjectDigest { hi, lo };
        assert(r.valid());
        Some(r)
    }
}

impl Wire for Owner {
    open spec fn fits(&self) -> bool {
        match *self {
            Owner::AddressOwner(a) => a.fits(),
            Owner::ObjectOwner(a) => a.fits(),
            Owner::Shared { initial_shared_version } => initial_shared_version.fits(),
            Owner::Immutable => true,
        }
    }

    open spec fn wire(&self) -> Seq<u8> {
        match *self {
            Owner::AddressOwner(a) => seq![0u8] + a.wire(),
            Owner::ObjectOwner(a) => seq![1u8] + a.wire(),
            Owner::Shared { initial_shared_version } => seq![2u8] + initial_shared_version.wire(),
            Owner::Immutable => seq![3u8],
        }
    }

    open spec fn read(bytes: Seq<u8>) -> Option<(Owner, Seq<u8>)> {
        if bytes.len() < 1 {
            None
        } else if bytes[0] == 0 {
            match SuiAddress::read(bytes.skip(1)) {
                Some((a, after_a)) => Some((Owner::AddressOwner(a), after_a)),
                None => None,
            }
        } else if bytes[0] == 1 {
            match SuiAddress::read(bytes.skip(1)) {
                Some((a, after_a)) => Some((Owner::ObjectOwner(a), after_a)),
                None => None,
            }
        } else if bytes[0] == 2 {
            match u64::read(bytes.skip(1)) {
                Some((initial_shared_version, after_initial_shared_version)) =>
                    Some((Owner::Shared { initial_shared_version }, after_initial_shared_version)),
                None => None,
            }
        } else if bytes[0] == 3 {
            Some((Owner::Immutable, bytes.skip(1)))
        } else {
            None
        }
    }

    proof fn lemma_read_wire(&self, rest: Seq<u8>) {
        match *self {
            Owner::AddressOwner(a) => {
                let p_1 = seq![0u8];
                let tail_2 = rest;
                let tail_1 = a.wire() + tail_2;
                a.lemma_read_wire(tail_2);
                lemma_concat_assoc(p_1, a.wire(), tail_2);
                assert(self.wire() + rest == p_1 + tail_1);
                assert((p_1 + tail_1).skip(1) =~= tail_1);
            },
            Owner::ObjectOwner(a) => {
                let p_1 = seq![1u8];
                let tail_2 = rest;
                let tail_1 = a.wire() + tail_2;
                a.lemma_read_wire(tail_2);
                lemma_concat_assoc(p_1, a.wire(), tail_2);
                assert(self.wire() + rest == p_1 + tail_1);
                assert((p_1 + tail_1).skip(1) =~= tail_1);
            },
            Owner::Shared { initial_shared_version } => {
                let p_1 = seq![2u8];
                let tail_2 = rest;
                let tail_1 = initial_shared_version.wire() + tail_2;
                initial_shared_version.lemma_read_wire(tail_2);
                lemma_concat_assoc(p_1, initial_shared_version.wire(), tail_2);
                assert(self.wire() + rest == p_1 + tail_1);
                assert((p_1 + tail_1).skip(1) =~= tail_1);
            },
            Owner::Immutable => {
                let p_1 = seq![3u8];
                let tail_1 = rest;
                assert(self.wire() + rest == p_1 + tail_1);
                assert((p_1 + tail_1).skip(1) =~= tail_1);
            },
        }
    }

    fn encode(&self, out: &mut Vec<u8>) {
        match self {
            Owner::AddressOwner(a) => {
                let ghost o = old(out)@;
                out.push(0);
                assert(out@ =~= o + seq![0u8]);
                let ghost p_1 = seq![0u8];
                a.encode(out);
                proof {
                    lemma_concat_assoc(o, p_1, a.wire());
                }
                assert(out@ == o + self.wire());
            },
            Owner::ObjectOwner(a) => {
                let ghost o = old(out)@;
                out.push(1);
                assert(out@ =~= o + seq![1u8]);
                let ghost p_1 = seq![1u8];
                a.encode(out);
                proof {
                    lemma_concat_assoc(o, p_1, a.wire());
                }
                assert(out@ == o + self.wire());
            },
            Owner::Shared { initial_shared_version } => {
                let ghost o = old(out)@;
                out.push(2);
                assert(out@ =~= o + seq![2u8]);
                let ghost p_1 = seq![2u8];
                initial_shared_version.encode(out);
                proof {
                    lemma_concat_assoc(o, p_1, initial_shared_version.wire());
                }
                assert(out@ == o + self.wire());
            },
            Owner::Immutable => {
                let ghost o = old(out)@;
                out.push(3);
                assert(out@ =~= o + seq![3u8]);
                let ghost p_1 = seq![3u8];
                assert(out@ == o + self.wire());
            },
        }
    }

    fn decode(reader: &mut Reader<'_>) -> (r: Option<Self>) {
        let tag = match reader.take(1) {
            Some(s) => s[0],
            None => {
                return None;
            },
        };
        if tag == 0 {
            let a = match SuiAddress::decode(reader) {
                Some(v) => v,
                None => {
                    return None;
                },
            };
            let r = Owner::AddressOwner(a);
            assert(r.valid());
            Some(r)
        } else if tag == 1 {
            let a = match SuiAddress::decode(reader) {
                Some(v) => v,
                None => {
                    return None;
                },
            };
            let r = Owner::ObjectOwner(a);
            assert(r.valid());
            Some(r)
        } else if tag == 2 {
            let initial_shared_version = match u64::decode(reader) {
                Some(v) => v,
                None => {
                    return None;
                },
            };
            let r = Owner::Shared { initial_shared_version };
            assert(r.valid());
            Some(r)
        } else if tag == 3 {
            let r = Owner::Immutable;
            assert(r.valid());
            Some(r)
        } else {
            None
        }
    }
}

impl Wire for StructTag {
    open spec fn fits(&self) -> bool {
        &&& self.address.fits()
        &&& self.module.fits()
        &&& self.name.fits()
        &&& all_fit(self.type_params@) && self.type_params@.len() <= u64::MAX
    }

    open spec fn wire(&self) -> Seq<u8> {
        self.address.wire() + self.module.wire() + self.name.wire() + wire_list(self.type_params@)
    }

    open spec fn read(bytes: Seq<u8>) -> Option<(StructTagView, Seq<u8>)> {
        match ObjectID::read(bytes) {
            Some((address, after_address)) => match String::read(after_address) {
                Some((module, after_module)) => match String::read(after_module) {
                    Some((name, after_name)) => match read_list::<String>(after_name) {
                        Some((type_params, after_type_params)) =>
                            Some((StructTagView { address, module, name, type_params }, after_type_params)),
                        None => None,
                    },
                    None => None,
                },
                None => None,
            },
            None => None,
        }
    }

    proof fn lemma_read_wire(&self, rest: Seq<u8>) {
        let p_1 = self.address.wire();
        let p_2 = p_1 + self.module.wire();
        let p_3 = p_2 + self.name.wire();
        let tail_4 = rest;
        let tail_3 = wire_list(self.type_params@) + tail_4;
        let tail_2 = self.name.wire() + tail_3;
        let tail_1 = self.module.wire() + tail_2;
        self.address.lemma_read_wire(tail_1);
        self.module.lemma_read_wire(tail_2);
        self.name.lemma_read_wire(tail_3);
        lemma_read_wire_list(self.type_params@, tail_4);
        lemma_concat_assoc(p_3, wire_list(self.type_params@), tail_4);
        lemma_concat_assoc(p_2, self.name.wire(), tail_3);
        lemma_concat_assoc(p_1, self.module.wire(), tail_2);
        assert(self.wire() + rest == p_1 + tail_1);
    }

    fn encode(&self, out: &mut Vec<u8>) {
        let ghost o = old(out)@;
        let ghost p_1 = self.address.wire();
        self.address.encode(out);
        self.module.encode(out);
        proof {
            lemma_concat_assoc(o, p_1, self.module.wire());
        }
        let ghost p_2 = p_1 + self.module.wire();
        self.name.encode(out);
        proof {
            lemma_concat_assoc(o, p_2, self.name.wire());
        }
        let ghost p_3 = p_2 + self.name.wire();
        put_list(&self.type_params, out);
        proof {
            lemma_concat_assoc(o, p_3, wire_list(self.type_params@));
        }
        assert(out@ == o + self.wire());
    }

    fn decode(reader: &mut Reader<'_>) -> (r: Option<Self>) {
        let address = match ObjectID::decode(reader) {
            Some(v) => v,
            None => {
                return None;
            },
        };
        let module = match String::decode(reader) {
            Some(v) => v,
            None => {
                return None;
            },
        };
        let name = match String::decode(reader) {
            Some(v) => v,
            None => {
                return None;
            },
        };
        let type_params = match get_list::<String>(reader) {
            Some(v) => v,
            None => {
                return None;
            },
        };
        let r = StructTag { address, module, name, type_params };
        assert(r.valid());
        Some(r)
    }
}

impl Wire for MoveObject {
    open spec fn fits(&self) -> bool {
        &&& self.type_.fits()
        &&& self.has_public_transfer.fits()
        &&& self.contents.fits()
    }

    open spec fn wire(&self) -> Seq<u8> {
        self.type_.wire() + self.has_public_transfer.wire() + self.contents.wire()
    }

    open spec fn read(bytes: Seq<u8>) -> Option<(MoveObjectView, Seq<u8>)> {
        match StructTag::read(bytes) {
            Some((type_, after_type_)) => match bool::read(after_type_) {
                Some((has_public_transfer, after_has_public_transfer)) => match Vec::<u8>::read(after_has_public_transfer) {
                    Some((contents, after_contents)) =>
                        Some((MoveObjectView { type_, has_public_transfer, contents }, after_contents)),
                    None => None,
                },
                None => None,
            },
            None => None,
        }
    }

    proof fn lemma_read_wire(&self, rest: Seq<u8>) {
        let p_1 = self.type_.wire();
        let p_2 = p_1 + self.has_public_transfer.wire();
        let tail_3 = rest;
        let tail_2 = self.contents.wire() + tail_3;
        let tail_1 = self.has_public_transfer.wire() + tail_2;
        self.type_.lemma_read_wire(tail_1);
        self.has_public_transfer.lemma_read_wire(tail_2);
        self.contents.lemma_read_wire(tail_3);
        lemma_concat_assoc(p_2, self.contents.wire(), tail_3);
        lemma_concat_assoc(p_1, self.has_public_transfer.wire(), tail_2);
        assert(self.wire() + rest == p_1 + tail_1);
    }

    fn encode(&self, out: &mut Vec<u8>) {
        let ghost o = old(out)@;
        let ghost p_1 = self.type_.wire();
        self.type_.encode(out);
        self.has_public_transfer.encode(out);
        proof {
            lemma_concat_assoc(o, p_1, self.has_public_transfer.wire());
        }
        let ghost p_2 = p_1 + self.has_public_transfer.wire();
        self.contents.encode(out);
        proof {
            lemma_concat_assoc(o, p_2, self.contents.wire());
        }
        assert(out@ == o + self.wire());
    }

    fn decode(reader: &mut Reader<'_>) -> (r: Option<Self>) {
        let type_ = match StructTag::decode(reader) {
            Some(v) => v,
            None => {
                return None;
            },
        };
        let has_public_transfer = match bool::decode(reader) {
            Some(v) => v,
            None => {
                return None;
            },
        };
        let contents = match Vec::<u8>::decode(reader) {
            Some(v) => v,
            None => {
                return None;
            },
        };
        let r = MoveObject { type_, has_public_transfer, contents };
        assert(r.valid());
        Some(r)
    }
}

impl Wire for MoveModule {
    open spec fn fits(&self) -> bool {
        &&& self.name.fits()
        &&& self.bytes.fits()
    }

    open spec fn wire(&self) -> Seq<u8> {
        self.name.wire() + self.bytes.wire()
    }

    open spec fn read(bytes: Seq<u8>) -> Option<(MoveModuleView, Seq<u8>)> {
        match String::read(bytes) {
            Some((name, after_name)) => match Vec::<u8>::read(after_name) {
                Some((bytes, after_bytes)) => Some((MoveModuleView { name, bytes }, after_bytes)),
                None => None,
            },
            None => None,
        }
    }

    proof fn lemma_read_wire(&self, rest: Seq<u8>) {
        let p_1 = self.name.wire();
        let tail_2 = rest;
        let tail_1 = self.bytes.wire() + tail_2;
        self.name.lemma_read_wire(tail_1);
        self.bytes.lemma_read_wire(tail_2);
        lemma_concat_assoc(p_1, self.bytes.wire(), tail_2);
        assert(self.wire() + rest == p_1 + tail_1);
    }

    fn encode(&self, out: &mut Vec<u8>) {
        let ghost o = old(out)@;
        let ghost p_1 = self.name.wire();
        self.name.encode(out);
        self.bytes.encode(out);
        proof {
            lemma_concat_assoc(o, p_1, self.bytes.wire());
        }
        assert(out@ == o + self.wire());
    }

    fn decode(reader: &mut Reader<'_>) -> (r: Option<Self>) {
        let name = match String::decode(reader) {
            Some(v) => v,
            None => {
                return None;
            },
        };
        let bytes = match Vec::<u8>::decode(reader) {
            Some(v) => v,
            None => {
                return None;
            },
        };
        let r = MoveModule { name, bytes };
        assert(r.valid());
        Some(r)
    }
}

impl Wire for MovePackage {
    open spec fn fits(&self) -> bool {
        &&& all_fit(self.modules@) && self.modules@.len() <= u64::MAX
        &&& self.tables.fits()
    }

    open spec fn wire(&self) -> Seq<u8> {
        wire_list(self.modules@) + self.tables.wire()
    }

    open spec fn read(bytes: Seq<u8>) -> Option<(MovePackageView, Seq<u8>)> {
        match read_list::<MoveModule>(bytes) {
            Some((modules, after_modules)) => match Vec::<u8>::read(after_modules) {
                Some((tables, after_tables)) =>
                    Some((MovePackageView { modules, tables }, after_tables)),
                None => None,
            },
            None => None,
        }
    }

    proof fn lemma_read_wire(&self, rest: Seq<u8>) {
        let p_1 = wire_list(self.modules@);
        let tail_2 = rest;
        let tail_1 = self.tables.wire() + tail_2;
        lemma_read_wire_list(self.modules@, tail_1);
        self.tables.lemma_read_wire(tail_2);
        lemma_concat_assoc(p_1, self.tables.wire(), tail_2);
        assert(self.wire() + rest == p_1 + tail_1);
    }

    fn encode(&self, out: &mut Vec<u8>) {
        let ghost o = old(out)@;
        let ghost p_1 = wire_list(self.modules@);
        put_list(&self.modules, out);
        self.tables.encode(out);
        proof {
            lemma_concat_assoc(o, p_1, self.tables.wire());
        }
        assert(out@ == o + self.wire());
    }

    fn decode(reader: &mut Reader<'_>) -> (r: Option<Self>) {
        let modules = match get_list::<MoveModule>(reader) {
            Some(v) => v,
            None => {
                return None;
            },
        };
        let tables = match Vec::<u8>::decode(reader) {
            Some(v) => v,
            None => {
                return None;
            },
        };
        let r = MovePackage { modules, tables };
        assert(r.valid());
        Some(r)
    }
}

impl Wire for Data {
    open spec fn fits(&self) -> bool {
        match *self {
            Data::Move(m) => m.fits(),
            Data::Package(p) => p.fits(),
        }
    }

    open spec fn wire(&self) -> Seq<u8> {
        match *self {
            Data::Move(m) => seq![0u8] + m.wire(),
            Data::Package(p) => seq![1u8] + p.wire(),
        }
    }

    open spec fn read(bytes: Seq<u8>) -> Option<(DataView, Seq<u8>)> {
        if bytes.len() < 1 {
            None
        } else if bytes[0] == 0 {
            match MoveObject::read(bytes.skip(1)) {
                Some((m, after_m)) => Some((DataView::Move(m), after_m)),
                None => None,
            }
        } else if bytes[0] == 1 {
            match MovePackage::read(bytes.skip(1)) {
                Some((p, after_p)) => Some((DataView::Package(p), after_p)),
                None => None,
            }
        } else {
            None
        }
    }

    proof fn lemma_read_wire(&self, rest: Seq<u8>) {
        match *self {
            Data::Move(m) => {
                let p_1 = seq![0u8];
                let tail_2 = rest;
                let tail_1 = m.wire() + tail_2;
                m.lemma_read_wire(tail_2);
                lemma_concat_assoc(p_1, m.wire(), tail_2);
                assert(self.wire() + rest == p_1 + tail_1);
                assert((p_1 + tail_1).skip(1) =~= tail_1);
            },
            Data::Package(p) => {
                let p_1 = seq![1u8];
                let tail_2 = rest;
                let tail_1 = p.wire() + tail_2;
                p.lemma_read_wire(tail_2);
                lemma_concat_assoc(p_1, p.wire(), tail_2);
                assert(self.wire() + rest == p_1 + tail_1);
                assert((p_1 + tail_1).skip(1) =~= tail_1);
            },
        }
    }

    fn encode(&self, out: &mut Vec<u8>) {
        match self {
            Data::Move(m) => {
                let ghost o = old(out)@;
                out.push(0);
                assert(out@ =~= o + seq![0u8]);
                let ghost p_1 = seq![0u8];
                m.encode(out);
                proof {
                    lemma_concat_assoc(o, p_1, m.wire());
                }
                assert(out@ == o + self.wire());
            },
            Data::Package(p) => {
                let ghost o = old(out)@;
                out.push(1);
                assert(out@ =~= o + seq![1u8]);
                let ghost p_1 = seq![1u8];
                p.encode(out);
                proof {
                    lemma_concat_assoc(o, p_1, p.wire());
                }
                assert(out@ == o + self.wire());
            },
        }
    }

    fn decode(reader: &mut Reader<'_>) -> (r: Option<Self>) {
        let tag = match reader.take(1) {
            Some(s) => s[0],
            None => {
                return None;
            },
        };
        if tag == 0 {
            let m = match MoveObject::decode(reader) {
                Some(v) => v,
                None => {
                    return None;
                },
            };
            let r = Data::Move(m);
            assert(r.valid());
            Some(r)
        } else if tag == 1 {
            let p = match MovePackage::decode(reader) {
                Some(v) => v,
                None => {
                    return None;
                },
            };
            let r = Data::Package(p);
            assert(r.valid());
            Some(r)
        } else {
            None
        }
    }
}

impl Wire for Object {
    open spec fn fits(&self) -> bool {
        &&& self.id.fits()
        &&& self.version.fits()
        &&& self.owner.fits()
        &&& self.digest.fits()
        &&& self.previous_transaction.fits()
        &&& self.storage_rebate.fits()
        &&& self.data.fits()
    }

    open spec fn wire(&self) -> Seq<u8> {
        self.id.wire() + self.version.wire() + self.owner.wire() + self.digest.wire() + self.previous_transaction.wire() + self.storage_rebate.wire() + self.data.wire()
    }

    open spec fn read(bytes: Seq<u8>) -> Option<(ObjectView, Seq<u8>)> {
        match ObjectID::read(bytes) {
            Some((id, after_id)) => match u64::read(after_id) {
                Some((version, after_version)) => match Owner::read(after_version) {
                    Some((owner, after_owner)) => match ObjectDigest::read(after_owner) {
                        Some((digest, after_digest)) => match TransactionDigest::read(after_digest) {
                            Some((previous_transaction, after_previous_transaction)) => match u64::read(after_previous_transaction) {
                                Some((storage_rebate, after_storage_rebate)) => match Data::read(after_storage_rebate) {
                                    Some((data, after_data)) =>
                                        Some((ObjectView { id, version, owner, digest, previous_transaction, storage_rebate, data }, after_data)),
                                    None => None,
                                },
                                None => None,
                            },
                            None => None,
                        },
                        None => None,
                    },
                    None => None,
                },
                None => None,
            },
            None => None,
        }
    }

    proof fn lemma_read_wire(&self, rest: Seq<u8>) {
        let p_1 = self.id.wire();
        let p_2 = p_1 + self.version.wire();
        let p_3 = p_2 + self.owner.wire();
        let p_4 = p_3 + self.digest.wire();
        let p_5 = p_4 + self.previous_transaction.wire();
        let p_6 = p_5 + self.storage_rebate.wire();
        let tail_7 = rest;
        let tail_6 = self.data.wire() + tail_7;
        let tail_5 = self.storage_rebate.wire() + tail_6;
        let tail_4 = self.previous_transaction.wire() + tail_5;
        let tail_3 = self.digest.wire() + tail_4;
        let tail_2 = self.owner.wire() + tail_3;
        let tail_1 = self.version.wire() + tail_2;
        self.id.lemma_read_wire(tail_1);
        self.version.lemma_read_wire(tail_2);
        self.owner.lemma_read_wire(tail_3);
        self.digest.lemma_read_wire(tail_4);
        self.previous_transaction.lemma_read_wire(tail_5);
        self.storage_rebate.lemma_read_wire(tail_6);
        self.data.lemma_read_wire(tail_7);
        lemma_concat_assoc(p_6, self.data.wire(), tail_7);
        lemma_concat_assoc(p_5, self.storage_rebate.wire(), tail_6);
        lemma_concat_assoc(p_4, self.previous_transaction.wire(), tail_5);
        lemma_concat_assoc(p_3, self.digest.wire(), tail_4);
        lemma_concat_assoc(p_2, self.owner.wire(), tail_3);
        lemma_concat_assoc(p_1, self.version.wire(), tail_2);
        assert(self.wire() + rest == p_1 + tail_1);
    }

    fn encode(&self, out: &mut Vec<u8>) {
        let ghost o = old(out)@;
        let ghost p_1 = self.id.wire();
        self.id.encode(out);
        self.version.encode(out);
        proof {
            lemma_concat_assoc(o, p_1, self.version.wire());
        }
        let ghost p_2 = p_1 + self.version.wire();
        self.owner.encode(out);
        proof {
            lemma_concat_assoc(o, p_2, self.owner.wire());
        }
        let ghost p_3 = p_2 + self.owner.wire();
        self.digest.encode(out);
        proof {
            lemma_concat_assoc(o, p_3, self.digest.wire());
        }
        let ghost p_4 = p_3 + self.digest.wire();
        self.previous_transaction.encode(out);
        proof {
            lemma_concat_assoc(o, p_4, self.previous_transaction.wire());
        }
        let ghost p_5 = p_4 + self.previous_transaction.wire();
        self.storage_rebate.encode(out);
        proof {
            lemma_concat_assoc(o, p_5, self.storage_rebate.wire());
        }
        let ghost p_6 = p_5 + self.storage_rebate.wire();
        self.data.encode(out);
        proof {
            lemma_concat_assoc(o, p_6, self.data.wire());
        }
        assert(out@ == o + self.wire());
    }

    fn decode(reader: &mut Reader<'_>) -> (r: Option<Self>) {
        let id = match ObjectID::decode(reader) {
            Some(v) => v,
            None => {
                return None;
            },
        };
        let version = match u64::decode(reader) {
            Some(v) => v,
            None => {
                return None;
            },
        };
        let owner = match Owner::decode(reader) {
            Some(v) => v,
            None => {
                return None;
            },
        };
        let digest = match ObjectDigest::decode(reader) {
            Some(v) => v,
            None => {
                return None;
            },
        };
        let previous_transaction = match TransactionDigest::decode(reader) {
            Some(v) => v,
            None => {
                return None;
            },
        };
        let storage_rebate = match u64::decode(reader) {
            Some(v) => v,
            None => {
                return None;
            },
        };
        let data = match Data::decode(reader) {
            Some(v) => v,
            None => {
                return None;
            },
        };
        let r = Object { id, version, owner, digest, previous_transaction, storage_rebate, data };
        assert(r.valid());
        Some(r)
    }
}

impl Wire for MoveCallSignature {
    open spec fn fits(&self) -> bool {
        &&& self.package.fits()
        &&& self.module.fits()
        &&& self.function.fits()
    }

    open spec fn wire(&self) -> Seq<u8> {
        self.package.wire() + self.module.wire() + self.function.wire()
    }

    open spec fn read(bytes: Seq<u8>) -> Option<(MoveCallSignatureView, Seq<u8>)> {
        match ObjectID::read(bytes) {
            Some((package, after_package)) => match String::read(after_package) {
                Some((module, after_module)) => match String::read(after_module) {
                    Some((function, after_function)) =>
                        Some((MoveCallSignatureView { package, module, function }, after_function)),
                    None => None,
                },
                None => None,
            },
            None => None,
        }
    }

    proof fn lemma_read_wire(&self, rest: Seq<u8>) {
        let p_1 = self.package.wire();
        let p_2 = p_1 + self.module.wire();
        let tail_3 = rest;
        let tail_2 = self.function.wire() + tail_3;
        let tail_1 = self.module.wire() + tail_2;
        self.package.lemma_read_wire(tail_1);
        self.module.lemma_read_wire(tail_2);
        self.function.lemma_read_wire(tail_3);
        lemma_concat_assoc(p_2, self.function.wire(), tail_3);
        lemma_concat_assoc(p_1, self.module.wire(), tail_2);
        assert(self.wire() + rest == p_1 + tail_1);
    }

    fn encode(&self, out: &mut Vec<u8>) {
        let ghost o = old(out)@;
        let ghost p_1 = self.package.wire();
        self.package.encode(out);
        self.module.encode(out);
        proof {
            lemma_concat_assoc(o, p_1, self.module.wire());
        }
        let ghost p_2 = p_1 + self.module.wire();
        self.function.encode(out);
        proof {
            lemma_concat_assoc(o, p_2, self.function.wire());
        }
        assert(out@ == o + self.wire());
    }

    fn decode(reader: &mut Reader<'_>) -> (r: Option<Self>) {
        let package = match ObjectID::decode(reader) {
            Some(v) => v,
            None => {
                return None;
            },
        };
        let module = match String::decode(reader) {
            Some(v) => v,
            None => {
                return None;
            },
        };
        let function = match String::decode(reader) {
            Some(v) => v,
            None => {
                return None;
            },
        };
        let r = MoveCallSignature { package, module, function };
        assert(r.valid());
        Some(r)
    }
}

impl Wire for ObjectChange {
    open spec fn fits(&self) -> bool {
        match *self {
            ObjectChange::Published { package_id, version, digest, modules } => (package_id.fits()) && (version.fits()) && (digest.fits()) && (all_fit(modules@) && modules@.len() <= u64::MAX),
            ObjectChange::Transferred { sender, recipient, object_type, object_id, version, digest } => (sender.fits()) && (recipient.fits()) && (object_type.fits()) && (object_id.fits()) && (version.fits()) && (digest.fits()),
            ObjectChange::Mutated { sender, owner, object_type, object_id, version, previous_version, digest } => (sender.fits()) && (owner.fits()) && (object_type.fits()) && (object_id.fits()) && (version.fits()) && (previous_version.fits()) && (digest.fits()),
            ObjectChange::Deleted { sender, object_type, object_id, version } => (sender.fits()) && (object_type.fits()) && (object_id.fits()) && (version.fits()),
            ObjectChange::Wrapped { sender, object_type, object_id, version } => (sender.fits()) && (object_type.fits()) && (object_id.fits()) && (version.fits()),
            ObjectChange::Created { sender, owner, object_type, object_id, version, digest } => (sender.fits()) && (owner.fits()) && (object_type.fits()) && (object_id.fits()) && (version.fits()) && (digest.fits()),
        }
    }

    open spec fn wire(&self) -> Seq<u8> {
        match *self {
            ObjectChange::Published { package_id, version, digest, modules } => seq![0u8] + package_id.wire() + version.wire() + digest.wire() + wire_list(modules@),
            ObjectChange::Transferred { sender, recipient, object_type, object_id, version, digest } => seq![1u8] + sender.wire() + recipient.wire() + object_type.wire() + object_id.wire() + version.wire() + digest.wire(),
            ObjectChange::Mutated { sender, owner, object_type, object_id, version, previous_version, digest } => seq![2u8] + sender.wire() + owner.wire() + object_type.wire() + object_id.wire() + version.wire() + previous_version.wire() + digest.wire(),
            ObjectChange::Deleted { sender, object_type, object_id, version } => seq![3u8] + sender.wire() + object_type.wire() + object_id.wire() + version.wire(),
            ObjectChange::Wrapped { sender, object_type, object_id, version } => seq![4u8] + sender.wire() + object_type.wire() + object_id.wire() + version.wire(),
            ObjectChange::Created { sender, owner, object_type, object_id, version, digest } => seq![5u8] + sender.wire() + owner.wire() + object_type.wire() + object_id.wire() + version.wire() + digest.wire(),
        }
    }

    open spec fn read(bytes: Seq<u8>) -> Option<(ObjectChangeView, Seq<u8>)> {
        if bytes.len() < 1 {
            None
        } else if bytes[0] == 0 {
            match ObjectID::read(bytes.skip(1)) {
                Some((package_id, after_package_id)) => match u64::read(after_package_id) {
                    Some((version, after_version)) => match ObjectDigest::read(after_version) {
                        Some((digest, after_digest)) => match read_list::<String>(after_digest) {
                            Some((modules, after_modules)) =>
                                Some((ObjectChangeView::Published { package_id, version, digest, modules }, after_modules)),
                            None => None,
                        },
                        None => None,
                    },
                    None => None,
                },
                None => None,
            }
        } else if bytes[0] == 1 {
            match SuiAddress::read(bytes.skip(1)) {
                Some((sender, after_sender)) => match Owner::read(after_sender) {
                    Some((recipient, after_recipient)) => match StructTag::read(after_recipient) {
                        Some((object_type, after_object_type)) => match ObjectID::read(after_object_type) {
                            Some((object_id, after_object_id)) => match u64::read(after_object_id) {
                                Some((version, after_version)) => match ObjectDigest::read(after_version) {
                                    Some((digest, after_digest)) =>
                                        Some((ObjectChangeView::Transferred { sender, recipient, object_type, object_id, version, digest }, after_digest)),
                                    None => None,
                                },
                                None => None,
                            },
                            None => None,
                        },
                        None => None,
                    },
                    None => None,
                },
                None => None,
            }
        } else if bytes[0] == 2 {
            match SuiAddress::read(bytes.skip(1)) {
                Some((sender, after_sender)) => match Owner::read(after_sender) {
                    Some((owner, after_owner)) => match StructTag::read(after_owner) {
                        Some((object_type, after_object_type)) => match ObjectID::read(after_object_type) {
                            Some((object_id, after_object_id)) => match u64::read(after_object_id) {
                                Some((version, after_version)) => match u64::read(after_version) {
                                    Some((previous_version, after_previous_version)) => match ObjectDigest::read(after_previous_version) {
                                        Some((digest, after_digest)) =>
                                            Some((ObjectChangeView::Mutated { sender, owner, object_type, object_id, version, previous_version, digest }, after_digest)),
                                        None => None,
                                    },
                                    None => None,
                                },
                                None => None,
                            },
                            None => None,
                        },
                        None => None,
                    },
                    None => None,
                },
                None => None,
            }
        } else if bytes[0] == 3 {
            match SuiAddress::read(bytes.skip(1)) {
                Some((sender, after_sender)) => match StructTag::read(after_sender) {
                    Some((object_type, after_object_type)) => match ObjectID::read(after_object_type) {
                        Some((object_id, after_object_id)) => match u64::read(after_object_id) {
                            Some((version, after_version)) =>
                                Some((ObjectChangeView::Deleted { sender, object_type, object_id, version }, after_version)),
                            None => None,
                        },
                        None => None,
                    },
                    None => None,
                },
                None => None,
            }
        } else if bytes[0] == 4 {
            match SuiAddress::read(bytes.skip(1)) {
                Some((sender, after_sender)) => match StructTag::read(after_sender) {
                    Some((object_type, after_object_type)) => match ObjectID::read(after_object_type) {
                        Some((object_id, after_object_id)) => match u64::read(after_object_id) {
                            Some((version, after_version)) =>
                                Some((ObjectChangeView::Wrapped { sender, object_type, object_id, version }, after_version)),
                            None => None,
                        },
                        None => None,
                    },
                    None => None,
                },
                None => None,
            }
        } else if bytes[0] == 5 {
            match SuiAddress::read(bytes.skip(1)) {
                Some((sender, after_sender)) => match Owner::read(after_sender) {
                    Some((owner, after_owner)) => match StructTag::read(after_owner) {
                        Some((object_type, after_object_type)) => match ObjectID::read(after_object_type) {
                            Some((object_id, after_object_id)) => match u64::read(after_object_id) {
                                Some((version, after_version)) => match ObjectDigest::read(after_version) {
                                    Some((digest, after_digest)) =>
                                        Some((ObjectChangeView::Created { sender, owner, object_type, object_id, version, digest }, after_digest)),
                                    None => None,
                                },
                                None => None,
                            },
                            None => None,
                        },
                        None => None,
                    },
                    None => None,
                },
                None => None,
            }
        } else {
            None
        }
    }

    #[verifier::rlimit(50)]
    proof fn lemma_read_wire(&self, rest: Seq<u8>) {
        match *self {
            ObjectChange::Published { package_id, version, digest, modules } => {
                let p_1 = seq![0u8];
                let p_2 = p_1 + package_id.wire();
                let p_3 = p_2 + version.wire();
                let p_4 = p_3 + digest.wire();
                let tail_5 = rest;
                let tail_4 = wire_list(modules@) + tail_5;
                let tail_3 = digest.wire() + tail_4;
                let tail_2 = version.wire() + tail_3;
                let tail_1 = package_id.wire() + tail_2;
                package_id.lemma_read_wire(tail_2);
                version.lemma_read_wire(tail_3);
                digest.lemma_read_wire(tail_4);
                lemma_read_wire_list(modules@, tail_5);
                lemma_concat_assoc(p_4, wire_list(modules@), tail_5);
                lemma_concat_assoc(p_3, digest.wire(), tail_4);
                lemma_concat_assoc(p_2, version.wire(), tail_3);
                lemma_concat_assoc(p_1, package_id.wire(), tail_2);
                assert(self.wire() + rest == p_1 + tail_1);
                assert((p_1 + tail_1).skip(1) =~= tail_1);
            },
            ObjectChange::Transferred { sender, recipient, object_type, object_id, version, digest } => {
                let p_1 = seq![1u8];
                let p_2 = p_1 + sender.wire();
                let p_3 = p_2 + recipient.wire();
                let p_4 = p_3 + object_type.wire();
                let p_5 = p_4 + object_id.wire();
                let p_6 = p_5 + version.wire();
                let tail_7 = rest;
                let tail_6 = digest.wire() + tail_7;
                let tail_5 = version.wire() + tail_6;
                let tail_4 = object_id.wire() + tail_5;
                let tail_3 = object_type.wire() + tail_4;
                let tail_2 = recipient.wire() + tail_3;
                let tail_1 = sender.wire() + tail_2;
                sender.lemma_read_wire(tail_2);
                recipient.lemma_read_wire(tail_3);
                object_type.lemma_read_wire(tail_4);
                object_id.lemma_read_wire(tail_5);
                version.lemma_read_wire(tail_6);
                digest.lemma_read_wire(tail_7);
                lemma_concat_assoc(p_6, digest.wire(), tail_7);
                lemma_concat_assoc(p_5, version.wire(), tail_6);
                lemma_concat_assoc(p_4, object_id.wire(), tail_5);
                lemma_concat_assoc(p_3, object_type.wire(), tail_4);
                lemma_concat_assoc(p_2, recipient.wire(), tail_3);
                lemma_concat_assoc(p_1, sender.wire(), tail_2);
                assert(self.wire() + rest == p_1 + tail_1);
                assert((p_1 + tail_1).skip(1) =~= tail_1);
            },
            ObjectChange::Mutated { sender, owner, object_type, object_id, version, previous_version, digest } => {
                let p_1 = seq![2u8];
                let p_2 = p_1 + sender.wire();
                let p_3 = p_2 + owner.wire();
                let p_4 = p_3 + object_type.wire();
                let p_5 = p_4 + object_id.wire();
                let p_6 = p_5 + version.wire();
                let p_7 = p_6 + previous_version.wire();
                let tail_8 = rest;
                let tail_7 = digest.wire() + tail_8;
                let tail_6 = previous_version.wire() + tail_7;
                let tail_5 = version.wire() + tail_6;
                let tail_4 = object_id.wire() + tail_5;
                let tail_3 = object_type.wire() + tail_4;
                let tail_2 = owner.wire() + tail_3;
                let tail_1 = sender.wire() + tail_2;
                sender.lemma_read_wire(tail_2);
                owner.lemma_read_wire(tail_3);
                object_type.lemma_read_wire(tail_4);
                object_id.lemma_read_wire(tail_5);
                version.lemma_read_wire(tail_6);
                previous_version.lemma_read_wire(tail_7);
                digest.lemma_read_wire(tail_8);
                lemma_concat_assoc(p_7, digest.wire(), tail_8);
                lemma_concat_assoc(p_6, previous_version.wire(), tail_7);
                lemma_concat_assoc(p_5, version.wire(), tail_6);
                lemma_concat_assoc(p_4, object_id.wire(), tail_5);
                lemma_concat_assoc(p_3, object_type.wire(), tail_4);
                lemma_concat_assoc(p_2, owner.wire(), tail_3);
                lemma_concat_assoc(p_1, sender.wire(), tail_2);
                assert(self.wire() + rest == p_1 + tail_1);
                assert((p_1 + tail_1).skip(1) =~= tail_1);
            },
            ObjectChange::Deleted { sender, object_type, object_id, version } => {
                let p_1 = seq![3u8];
                let p_2 = p_1 + sender.wire();
                let p_3 = p_2 + object_type.wire();
                let p_4 = p_3 + object_id.wire();
                let tail_5 = rest;
                let tail_4 = version.wire() + tail_5;
                let tail_3 = object_id.wire() + tail_4;
                let tail_2 = object_type.wire() + tail_3;
                let tail_1 = sender.wire() + tail_2;
                sender.lemma_read_wire(tail_2);
                object_type.lemma_read_wire(tail_3);
                object_id.lemma_read_wire(tail_4);
                version.lemma_read_wire(tail_5);
                lemma_concat_assoc(p_4, version.wire(), tail_5);
                lemma_concat_assoc(p_3, object_id.wire(), tail_4);
                lemma_concat_assoc(p_2, object_type.wire(), tail_3);
                lemma_concat_assoc(p_1, sender.wire(), tail_2);
                assert(self.wire() + rest == p_1 + tail_1);
                assert((p_1 + tail_1).skip(1) =~= tail_1);
            },
            ObjectChange::Wrapped { sender, object_type, object_id, version } => {
                let p_1 = seq![4u8];
                let p_2 = p_1 + sender.wire();
                let p_3 = p_2 + object_type.wire();
                let p_4 = p_3 + object_id.wire();
                let tail_5 = rest;
                let tail_4 = version.wire() + tail_5;
                let tail_3 = object_id.wire() + tail_4;
                let tail_2 = object_type.wire() + tail_3;
                let tail_1 = sender.wire() + tail_2;
                sender.lemma_read_wire(tail_2);
                object_type.lemma_read_wire(tail_3);
                object_id.lemma_read_wire(tail_4);
                version.lemma_read_wire(tail_5);
                lemma_concat_assoc(p_4, version.wire(), tail_5);
                lemma_concat_assoc(p_3, object_id.wire(), tail_4);
                lemma_concat_assoc(p_2, object_type.wire(), tail_3);
                lemma_concat_assoc(p_1, sender.wire(), tail_2);
                assert(self.wire() + rest == p_1 + tail_1);
                assert((p_1 + tail_1).skip(1) =~= tail_1);
            },
            ObjectChange::Created { sender, owner, object_type, object_id, version, digest } => {
                let p_1 = seq![5u8];
                let p_2 = p_1 + sender.wire();
                let p_3 = p_2 + owner.wire();
                let p_4 = p_3 + object_type.wire();
                let p_5 = p_4 + object_id.wire();
                let p_6 = p_5 + version.wire();
                let tail_7 = rest;
                let tail_6 = digest.wire() + tail_7;
                let tail_5 = version.wire() + tail_6;
                let tail_4 = object_id.wire() + tail_5;
                let tail_3 = object_type.wire() + tail_4;
                let tail_2 = owner.wire() + tail_3;
                let tail_1 = sender.wire() + tail_2;
                sender.lemma_read_wire(tail_2);
                owner.lemma_read_wire(tail_3);
                object_type.lemma_read_wire(tail_4);
                object_id.lemma_read_wire(tail_5);
                version.lemma_read_wire(tail_6);
                digest.lemma_read_wire(tail_7);
                lemma_concat_assoc(p_6, digest.wire(), tail_7);
                lemma_concat_assoc(p_5, version.wire(), tail_6);
                lemma_concat_assoc(p_4, object_id.wire(), tail_5);
                lemma_concat_assoc(p_3, object_type.wire(), tail_4);
                lemma_concat_assoc(p_2, owner.wire(), tail_3);
                lemma_concat_assoc(p_1, sender.wire(), tail_2);
                assert(self.wire() + rest == p_1 + tail_1);
                assert((p_1 + tail_1).skip(1) =~= tail_1);
            },
        }
    }

    fn encode(&self, out: &mut Vec<u8>) {
        match self {
            ObjectChange::Published { package_id, version, digest, modules } => {
                let ghost o = old(out)@;
                out.push(0);
                assert(out@ =~= o + seq![0u8]);
                let ghost p_1 = seq![0u8];
                package_id.encode(out);
                proof {
                    lemma_concat_assoc(o, p_1, package_id.wire());
                }
                let ghost p_2 = p_1 + package_id.wire();
                version.encode(out);
                proof {
                    lemma_concat_assoc(o, p_2, version.wire());
                }
                let ghost p_3 = p_2 + version.wire();
                digest.encode(out);
                proof {
                    lemma_concat_assoc(o, p_3, digest.wire());
                }
                let ghost p_4 = p_3 + digest.wire();
                put_list(modules, out);
                proof {
                    lemma_concat_assoc(o, p_4, wire_list(modules@));
                }
                assert(out@ == o + self.wire());
            },
            ObjectChange::Transferred { sender, recipient, object_type, object_id, version, digest } => {
                let ghost o = old(out)@;
                out.push(1);
                assert(out@ =~= o + seq![1u8]);
                let ghost p_1 = seq![1u8];
                sender.encode(out);
                proof {
                    lemma_concat_assoc(o, p_1, sender.wire());
                }
                let ghost p_2 = p_1 + sender.wire();
                recipient.encode(out);
                proof {
                    lemma_concat_assoc(o, p_2, recipient.wire());
                }
                let ghost p_3 = p_2 + recipient.wire();
                object_type.encode(out);
                proof {
                    lemma_concat_assoc(o, p_3, object_type.wire());
                }
                let ghost p_4 = p_3 + object_type.wire();
                object_id.encode(out);
                proof {
                    lemma_concat_assoc(o, p_4, object_id.wire());
                }
                let ghost p_5 = p_4 + object_id.wire();
                version.encode(out);
                proof {
                    lemma_concat_assoc(o, p_5, version.wire());
                }
                let ghost p_6 = p_5 + version.wire();
                digest.encode(out);
                proof {
                    lemma_concat_assoc(o, p_6, digest.wire());
                }
                assert(out@ == o + self.wire());
            },
            ObjectChange::Mutated { sender, owner, object_type, object_id, version, previous_version, digest } => {
                let ghost o = old(out)@;
                out.push(2);
                assert(out@ =~= o + seq![2u8]);
                let ghost p_1 = seq![2u8];
                sender.encode(out);
                proof {
                    lemma_concat_assoc(o, p_1, sender.wire());
                }
                let ghost p_2 = p_1 + sender.wire();
                owner.encode(out);
                proof {
                    lemma_concat_assoc(o, p_2, owner.wire());
                }
                let ghost p_3 = p_2 + owner.wire();
                object_type.encode(out);
                proof {
                    lemma_concat_assoc(o, p_3, object_type.wire());
                }
                let ghost p_4 = p_3 + object_type.wire();
                object_id.encode(out);
                proof {
                    lemma_concat_assoc(o, p_4, object_id.wire());
                }
                let ghost p_5 = p_4 + object_id.wire();
                version.encode(out);
                proof {
                    lemma_concat_assoc(o, p_5, version.wire());
                }
                let ghost p_6 = p_5 + version.wire();
                previous_version.encode(out);
                proof {
                    lemma_concat_assoc(o, p_6, previous_version.wire());
                }
                let ghost p_7 = p_6 + previous_version.wire();
                digest.encode(out);
                proof {
                    lemma_concat_assoc(o, p_7, digest.wire());
                }
                assert(out@ == o + self.wire());
            },
            ObjectChange::Deleted { sender, object_type, object_id, version } => {
                let ghost o = old(out)@;
                out.push(3);
                assert(out@ =~= o + seq![3u8]);
                let ghost p_1 = seq![3u8];
                sender.encode(out);
                proof {
                    lemma_concat_assoc(o, p_1, sender.wire());
                }
                let ghost p_2 = p_1 + sender.wire();
                object_type.encode(out);
                proof {
                    lemma_concat_assoc(o, p_2, object_type.wire());
                }
                let ghost p_3 = p_2 + object_type.wire();
                object_id.encode(out);
                proof {
                    lemma_concat_assoc(o, p_3, object_id.wire());
                }
                let ghost p_4 = p_3 + object_id.wire();
                version.encode(out);
                proof {
                    lemma_concat_assoc(o, p_4, version.wire());
                }
                assert(out@ == o + self.wire());
            },
            ObjectChange::Wrapped { sender, object_type, object_id, version } => {
                let ghost o = old(out)@;
                out.push(4);
                assert(out@ =~= o + seq![4u8]);
                let ghost p_1 = seq![4u8];
                sender.encode(out);
                proof {
                    lemma_concat_assoc(o, p_1, sender.wire());
                }
                let ghost p_2 = p_1 + sender.wire();
                object_type.encode(out);
                proof {
                    lemma_concat_assoc(o, p_2, object_type.wire());
                }
                let ghost p_3 = p_2 + object_type.wire();
                object_id.encode(out);
                proof {
                    lemma_concat_assoc(o, p_3, object_id.wire());
                }
                let ghost p_4 = p_3 + object_id.wire();
                version.encode(out);
                proof {
                    lemma_concat_assoc(o, p_4, version.wire());
                }
                assert(out@ == o + self.wire());
            },
            ObjectChange::Created { sender, owner, object_type, object_id, version, digest } => {
                let ghost o = old(out)@;
                out.push(5);
                assert(out@ =~= o + seq![5u8]);
                let ghost p_1 = seq![5u8];
                sender.encode(out);
                proof {
                    lemma_concat_assoc(o, p_1, sender.wire());
                }
                let ghost p_2 = p_1 + sender.wire();
                owner.encode(out);
                proof {
                    lemma_concat_assoc(o, p_2, owner.wire());
                }
                let ghost p_3 = p_2 + owner.wire();
                object_type.encode(out);
                proof {
                    lemma_concat_assoc(o, p_3, object_type.wire());
                }
                let ghost p_4 = p_3 + object_type.wire();
                object_id.encode(out);
                proof {
                    lemma_concat_assoc(o, p_4, object_id.wire());
                }
                let ghost p_5 = p_4 + object_id.wire();
                version.encode(out);
                proof {
                    lemma_concat_assoc(o, p_5, version.wire());
                }
                let ghost p_6 = p_5 + version.wire();
                digest.encode(out);
                proof {
                    lemma_concat_assoc(o, p_6, digest.wire());
                }
                assert(out@ == o + self.wire());
            },
        }
    }

    fn decode(reader: &mut Reader<'_>) -> (r: Option<Self>) {
        let tag = match reader.take(1) {
            Some(s) => s[0],
            None => {
                return None;
            },
        };
        if tag == 0 {
            let package_id = match ObjectID::decode(reader) {
                Some(v) => v,
                None => {
                    return None;
                },
            };
            let version = match u64::decode(reader) {
                Some(v) => v,
                None => {
                    return None;
                },
            };
            let digest = match ObjectDigest::decode(reader) {
                Some(v) => v,
                None => {
                    return None;
                },
            };
            let modules = match get_list::<String>(reader) {
                Some(v) => v,
                None => {
                    return None;
                },
            };
            let r = ObjectChange::Published { package_id, version, digest, modules };
            assert(r.valid());
            Some(r)
        } else if tag == 1 {
            let sender = match SuiAddress::decode(reader) {
                Some(v) => v,
                None => {
                    return None;
                },
            };
            let recipient = match Owner::decode(reader) {
                Some(v) => v,
                None => {
                    return None;
                },
            };
            let object_type = match StructTag::decode(reader) {
                Some(v) => v,
                None => {
                    return None;
                },
            };
            let object_id = match ObjectID::decode(reader) {
                Some(v) => v,
                None => {
                    return None;
                },
            };
            let version = match u64::decode(reader) {
                Some(v) => v,
                None => {
                    return None;
                },
            };
            let digest = match ObjectDigest::decode(reader) {
                Some(v) => v,
                None => {
                    return None;
                },
            };
            let r = ObjectChange::Transferred { sender, recipient, object_type, object_id, version, digest };
            assert(r.valid());
            Some(r)
        } else if tag == 2 {
            let sender = match SuiAddress::decode(reader) {
                Some(v) => v,
                None => {
                    return None;
                },
            };
            let owner = match Owner::decode(reader) {
                Some(v) => v,
                None => {
                    return None;
                },
            };
            let object_type = match StructTag::decode(reader) {
                Some(v) => v,
                None => {
                    return None;
                },
            };
            let object_id = match ObjectID::decode(reader) {
                Some(v) => v,
                None => {
                    return None;
                },
            };
            let version = match u64::decode(reader) {
                Some(v) => v,
                None => {
                    return None;
                },
            };
            let previous_version = match u64::decode(reader) {
                Some(v) => v,
                None => {
                    return None;
                },
            };
            let digest = match ObjectDigest::decode(reader) {
                Some(v) => v,
                None => {
                    return None;
                },
            };
            let r = ObjectChange::Mutated { sender, owner, object_type, object_id, version, previous_version, digest };
            assert(r.valid());
            Some(r)
        } else if tag == 3 {
            let sender = match SuiAddress::decode(reader) {
                Some(v) => v,
                None => {
                    return None;
                },
            };
            let object_type = match StructTag::decode(reader) {
                Some(v) => v,
                None => {
                    return None;
                },
            };
            let object_id = match ObjectID::decode(reader) {
                Some(v) => v,
                None => {
                    return None;
                },
            };
            let version = match u64::decode(reader) {
                Some(v) => v,
                None => {
                    return None;
                },
            };
            let r = ObjectChange::Deleted { sender, object_type, object_id, version };
            assert(r.valid());
            Some(r)
        } else if tag == 4 {
            let sender = match SuiAddress::decode(reader) {
                Some(v) => v,
                None => {
                    return None;
                },
            };
            let object_type = match StructTag::decode(reader) {
                Some(v) => v,
                None => {
                    return None;
                },
            };
            let object_id = match ObjectID::decode(reader) {
                Some(v) => v,
                None => {
                    return None;
                },
            };
            let version = match u64::decode(reader) {
                Some(v) => v,
                None => {
                    return None;
                },
            };
            let r = ObjectChange::Wrapped { sender, object_type, object_id, version };
            assert(r.valid());
            Some(r)
        } else if tag == 5 {
            let sender = match SuiAddress::decode(reader) {
                Some(v) => v,
                None => {
                    return None;
                },
            };
            let owner = match Owner::decode(reader) {
                Some(v) => v,
                None => {
                    return None;
                },
            };
            let object_type = match StructTag::decode(reader) {
                Some(v) => v,
                None => {
                    return None;
                },
            };
            let object_id = match ObjectID::decode(reader) {
                Some(v) => v,
                None => {
                    return None;
                },
            };
            let version = match u64::decode(reader) {
                Some(v) => v,
                None => {
                    return None;
                },
            };
            let digest = match ObjectDigest::decode(reader) {
                Some(v) => v,
                None => {
                    return None;
                },
            };
            let r = ObjectChange::Created { sender, owner, object_type, object_id, version, digest };
            assert(r.valid());
            Some(r)
        } else {
            None
        }
    }
}

impl Wire for BalanceChange {
    open spec fn fits(&self) -> bool {
        &&& self.owner.fits()
        &&& self.coin_type.fits()
        &&& self.amount.fits()
    }

    open spec fn wire(&self) -> Seq<u8> {
        self.owner.wire() + self.coin_type.wire() + self.amount.wire()
    }

    open spec fn read(bytes: Seq<u8>) -> Option<(BalanceChangeView, Seq<u8>)> {
        match Owner::read(bytes) {
            Some((owner, after_owner)) => match String::read(after_owner) {
                Some((coin_type, after_coin_type)) => match i128::read(after_coin_type) {
                    Some((amount, after_amount)) =>
                        Some((BalanceChangeView { owner, coin_type, amount }, after_amount)),
                    None => None,
                },
                None => None,
            },
            None => None,
        }
    }

    proof fn lemma_read_wire(&self, rest: Seq<u8>) {
        let p_1 = self.owner.wire();
        let p_2 = p_1 + self.coin_type.wire();
        let tail_3 = rest;
        let tail_2 = self.amount.wire() + tail_3;
        let tail_1 = self.coin_type.wire() + tail_2;
        self.owner.lemma_read_wire(tail_1);
        self.coin_type.lemma_read_wire(tail_2);
        self.amount.lemma_read_wire(tail_3);
        lemma_concat_assoc(p_2, self.amount.wire(), tail_3);
        lemma_concat_assoc(p_1, self.coin_type.wire(), tail_2);
        assert(self.wire() + rest == p_1 + tail_1);
    }

    fn encode(&self, out: &mut Vec<u8>) {
        let ghost o = old(out)@;
        let ghost p_1 = self.owner.wire();
        self.owner.encode(out);
        self.coin_type.encode(out);
        proof {
            lemma_concat_assoc(o, p_1, self.coin_type.wire());
        }
        let ghost p_2 = p_1 + self.coin_type.wire();
        self.amount.encode(out);
        proof {
            lemma_concat_assoc(o, p_2, self.amount.wire());
        }
        assert(out@ == o + self.wire());
    }

    fn decode(reader: &mut Reader<'_>) -> (r: Option<Self>) {
        let owner = match Owner::decode(reader) {
            Some(v) => v,
            None => {
                return None;
            },
        };
        let coin_type = match String::decode(reader) {
            Some(v) => v,
            None => {
                return None;
            },
        };
        let amount = match i128::decode(reader) {
            Some(v) => v,
            None => {
                return None;
            },
        };
        let r = BalanceChange { owner, coin_type, amount };
        assert(r.valid());
        Some(r)
    }
}

impl Wire for TransactionBlockResponse {
    open spec fn fits(&self) -> bool {
        &&& self.digest.fits()
        &&& self.raw_transaction.fits()
        &&& opt_fits(self.effects)
        &&& opt_fits(self.events)
        &&& opt_list_fits(self.object_changes)
        &&& opt_list_fits(self.balance_changes)
        &&& opt_fits(self.timestamp_ms)
        &&& opt_fits(self.confirmed_local_execution)
        &&& opt_fits(self.checkpoint)
        &&& all_fit(self.errors@) && self.errors@.len() <= u64::MAX
        &&& self.raw_effects.fits()
    }

    open spec fn wire(&self) -> Seq<u8> {
        self.digest.wire() + self.raw_transaction.wire() + wire_opt(self.effects) + wire_opt(self.events) + wire_opt_list(self.object_changes) + wire_opt_list(self.balance_changes) + wire_opt(self.timestamp_ms) + wire_opt(self.confirmed_local_execution) + wire_opt(self.checkpoint) + wire_list(self.errors@) + self.raw_effects.wire()
    }

    open spec fn read(bytes: Seq<u8>) -> Option<(TransactionBlockResponseView, Seq<u8>)> {
        match TransactionDigest::read(bytes) {
            Some((digest, after_digest)) => match Vec::<u8>::read(after_digest) {
                Some((raw_transaction, after_raw_transaction)) => match read_opt::<Vec<u8>>(after_raw_transaction) {
                    Some((effects, after_effects)) => match read_opt::<Vec<u8>>(after_effects) {
                        Some((events, after_events)) => match read_opt_list::<ObjectChange>(after_events) {
                            Some((object_changes, after_object_changes)) => match read_opt_list::<BalanceChange>(after_object_changes) {
                                Some((balance_changes, after_balance_changes)) => match read_opt::<u64>(after_balance_changes) {
                                    Some((timestamp_ms, after_timestamp_ms)) => match read_opt::<bool>(after_timestamp_ms) {
                                        Some((confirmed_local_execution, after_confirmed_local_execution)) => match read_opt::<u64>(after_confirmed_local_execution) {
                                            Some((checkpoint, after_checkpoint)) => match read_list::<String>(after_checkpoint) {
                                                Some((errors, after_errors)) => match Vec::<u8>::read(after_errors) {
                                                    Some((raw_effects, after_raw_effects)) =>
                                                        Some((TransactionBlockResponseView { digest, raw_transaction, effects, events, object_changes, balance_changes, timestamp_ms, confirmed_local_execution, checkpoint, errors, raw_effects }, after_raw_effects)),
                                                    None => None,
                                                },
                                                None => None,
                                            },
                                            None => None,
                                        },
                                        None => None,
                                    },
                                    None => None,
                                },
                                None => None,
                            },
                            None => None,
                        },
                        None => None,
                    },
                    None => None,
                },
                None => None,
            },
            None => None,
        }
    }

    proof fn lemma_read_wire(&self, rest: Seq<u8>) {
        let p_1 = self.digest.wire();
        let p_2 = p_1 + self.raw_transaction.wire();
        let p_3 = p_2 + wire_opt(self.effects);
        let p_4 = p_3 + wire_opt(self.events);
        let p_5 = p_4 + wire_opt_list(self.object_changes);
        let p_6 = p_5 + wire_opt_list(self.balance_changes);
        let p_7 = p_6 + wire_opt(self.timestamp_ms);
        let p_8 = p_7 + wire_opt(self.confirmed_local_execution);
        let p_9 = p_8 + wire_opt(self.checkpoint);
        let p_10 = p_9 + wire_list(self.errors@);
        let tail_11 = rest;
        let tail_10 = self.raw_effects.wire() + tail_11;
        let tail_9 = wire_list(self.errors@) + tail_10;
        let tail_8 = wire_opt(self.checkpoint) + tail_9;
        let tail_7 = wire_opt(self.confirmed_local_execution) + tail_8;
        let tail_6 = wire_opt(self.timestamp_ms) + tail_7;
        let tail_5 = wire_opt_list(self.balance_changes) + tail_6;
        let tail_4 = wire_opt_list(self.object_changes) + tail_5;
        let tail_3 = wire_opt(self.events) + tail_4;
        let tail_2 = wire_opt(self.effects) + tail_3;
        let tail_1 = self.raw_transaction.wire() + tail_2;
        self.digest.lemma_read_wire(tail_1);
        self.raw_transaction.lemma_read_wire(tail_2);
        lemma_read_wire_opt(self.effects, tail_3);
        lemma_read_wire_opt(self.events, tail_4);
        lemma_read_wire_opt_list(self.object_changes, tail_5);
        lemma_read_wire_opt_list(self.balance_changes, tail_6);
        lemma_read_wire_opt(self.timestamp_ms, tail_7);
        lemma_read_wire_opt(self.confirmed_local_execution, tail_8);
        lemma_read_wire_opt(self.checkpoint, tail_9);
        lemma_read_wire_list(self.errors@, tail_10);
        self.raw_effects.lemma_read_wire(tail_11);
        lemma_concat_assoc(p_10, self.raw_effects.wire(), tail_11);
        lemma_concat_assoc(p_9, wire_list(self.errors@), tail_10);
        lemma_concat_assoc(p_8, wire_opt(self.checkpoint), tail_9);
        lemma_concat_assoc(p_7, wire_opt(self.confirmed_local_execution), tail_8);
        lemma_concat_assoc(p_6, wire_opt(self.timestamp_ms), tail_7);
        lemma_concat_assoc(p_5, wire_opt_list(self.balance_changes), tail_6);
        lemma_concat_assoc(p_4, wire_opt_list(self.object_changes), tail_5);
        lemma_concat_assoc(p_3, wire_opt(self.events), tail_4);
        lemma_concat_assoc(p_2, wire_opt(self.effects), tail_3);
        lemma_concat_assoc(p_1, self.raw_transaction.wire(), tail_2);
        assert(self.wire() + rest == p_1 + tail_1);
    }

    fn encode(&self, out: &mut Vec<u8>) {
        let ghost o = old(out)@;
        let ghost p_1 = self.digest.wire();
        self.digest.encode(out);
        self.raw_transaction.encode(out);
        proof {
            lemma_concat_assoc(o, p_1, self.raw_transaction.wire());
        }
        let ghost p_2 = p_1 + self.raw_transaction.wire();
        put_opt(&self.effects, out);
        proof {
            lemma_concat_assoc(o, p_2, wire_opt(self.effects));
        }
        let ghost p_3 = p_2 + wire_opt(self.effects);
        put_opt(&self.events, out);
        proof {
            lemma_concat_assoc(o, p_3, wire_opt(self.events));
        }
        let ghost p_4 = p_3 + wire_opt(self.events);
        put_opt_list(&self.object_changes, out);
        proof {
            lemma_concat_assoc(o, p_4, wire_opt_list(self.object_changes));
        }
        let ghost p_5 = p_4 + wire_opt_list(self.object_changes);
        put_opt_list(&self.balance_changes, out);
        proof {
            lemma_concat_assoc(o, p_5, wire_opt_list(self.balance_changes));
        }
        let ghost p_6 = p_5 + wire_opt_list(self.balance_changes);
        put_opt(&self.timestamp_ms, out);
        proof {
            lemma_concat_assoc(o, p_6, wire_opt(self.timestamp_ms));
        }
        let ghost p_7 = p_6 + wire_opt(self.timestamp_ms);
        put_opt(&self.confirmed_local_execution, out);
        proof {
            lemma_concat_assoc(o, p_7, wire_opt(self.confirmed_local_execution));
        }
        let ghost p_8 = p_7 + wire_opt(self.confirmed_local_execution);
        put_opt(&self.checkpoint, out);
        proof {
            lemma_concat_assoc(o, p_8, wire_opt(self.checkpoint));
        }
        let ghost p_9 = p_8 + wire_opt(self.checkpoint);
        put_list(&self.errors, out);
        proof {
            lemma_concat_assoc(o, p_9, wire_list(self.errors@));
        }
        let ghost p_10 = p_9 + wire_list(self.errors@);
        self.raw_effects.encode(out);
        proof {
            lemma_concat_assoc(o, p_10, self.raw_effects.wire());
        }
        assert(out@ == o + self.wire());
    }

    fn decode(reader: &mut Reader<'_>) -> (r: Option<Self>) {
        let digest = match TransactionDigest::decode(reader) {
            Some(v) => v,
            None => {
                return None;
            },
        };
        let raw_transaction = match Vec::<u8>::decode(reader) {
            Some(v) => v,
            None => {
                return None;
            },
        };
        let effects = match get_opt::<Vec<u8>>(reader) {
            Some(v) => v,
            None => {
                return None;
            },
        };
        let events = match get_opt::<Vec<u8>>(reader) {
            Some(v) => v,
            None => {
                return None;
            },
        };
        let object_changes = match get_opt_list::<ObjectChange>(reader) {
            Some(v) => v,
            None => {
                return None;
            },
        };
        let balance_changes = match get_opt_list::<BalanceChange>(reader) {
            Some(v) => v,
            None => {
                return None;
            },
        };
        let timestamp_ms = match get_opt::<u64>(reader) {
            Some(v) => v,
            None => {
                return None;
            },
        };
        let confirmed_local_execution = match get_opt::<bool>(reader) {
            Some(v) => v,
            None => {
                return None;
            },
        };
        let checkpoint = match get_opt::<u64>(reader) {
            Some(v) => v,
            None => {
                return None;
            },
        };
        let errors = match get_list::<String>(reader) {
            Some(v) => v,
            None => {
                return None;
            },
        };
        let raw_effects = match Vec::<u8>::decode(reader) {
            Some(v) => v,
            None => {
                return None;
            },
        };
        let r = TransactionBlockResponse { digest, raw_transaction, effects, events, object_changes, balance_changes, timestamp_ms, confirmed_local_execution, checkpoint, errors, raw_effects };
        assert(r.valid());
        Some(r)
    }
}

impl Wire for TransactionIndices {
    open spec fn fits(&self) -> bool {
        &&& self.by_sender.fits()
        &&& self.by_recipient.fits()
        &&& self.by_sender_and_recipient.fits()
        &&& self.by_input_object.fits()
        &&& self.by_created_object.fits()
        &&& self.by_mutated_object.fits()
        &&& self.by_deleted_object.fits()
        &&& self.by_wrapped_object.fits()
        &&& self.by_move_call.fits()
        &&& self.by_package.fits()
        &&& self.by_module.fits()
        &&& self.by_transaction_kind.fits()
    }

    open spec fn wire(&self) -> Seq<u8> {
        self.by_sender.wire() + self.by_recipient.wire() + self.by_sender_and_recipient.wire() + self.by_input_object.wire() + self.by_created_object.wire() + self.by_mutated_object.wire() + self.by_deleted_object.wire() + self.by_wrapped_object.wire() + self.by_move_call.wire() + self.by_package.wire() + self.by_module.wire() + self.by_transaction_kind.wire()
    }

    open spec fn read(bytes: Seq<u8>) -> Option<(IndicesView, Seq<u8>)> {
        match VecMap::<SuiAddress, DigestSet>::read(bytes) {
            Some((by_sender, after_by_sender)) => match VecMap::<SuiAddress, DigestSet>::read(after_by_sender) {
                Some((by_recipient, after_by_recipient)) => match VecMap::<(SuiAddress, SuiAddress), DigestSet>::read(after_by_recipient) {
                    Some((by_sender_and_recipient, after_by_sender_and_recipient)) => match VecMap::<ObjectID, DigestSet>::read(after_by_sender_and_recipient) {
                        Some((by_input_object, after_by_input_object)) => match VecMap::<ObjectID, DigestSet>::read(after_by_input_object) {
                            Some((by_created_object, after_by_created_object)) => match VecMap::<ObjectID, DigestSet>::read(after_by_created_object) {
                                Some((by_mutated_object, after_by_mutated_object)) => match VecMap::<ObjectID, DigestSet>::read(after_by_mutated_object) {
                                    Some((by_deleted_object, after_by_deleted_object)) => match VecMap::<ObjectID, DigestSet>::read(after_by_deleted_object) {
                                        Some((by_wrapped_object, after_by_wrapped_object)) => match VecMap::<MoveCallSignature, DigestSet>::read(after_by_wrapped_object) {
                                            Some((by_move_call, after_by_move_call)) => match VecMap::<ObjectID, DigestSet>::read(after_by_move_call) {
                                                Some((by_package, after_by_package)) => match VecMap::<(ObjectID, String), DigestSet>::read(after_by_package) {
                                                    Some((by_module, after_by_module)) => match VecMap::<String, DigestSet>::read(after_by_module) {
                                                        Some((by_transaction_kind, after_by_transaction_kind)) =>
                                                            Some((IndicesView { by_sender, by_recipient, by_sender_and_recipient, by_input_object, by_created_object, by_mutated_object, by_deleted_object, by_wrapped_object, by_move_call, by_package, by_module, by_transaction_kind }, after_by_transaction_kind)),
                                                        None => None,
                                                    },
                                                    None => None,
                                                },
                                                None => None,
                                            },
                                            None => None,
                                        },
                                        None => None,
                                    },
                                    None => None,
                                },
                                None => None,
                            },
                            None => None,
                        },
                        None => None,
                    },
                    None => None,
                },
                None => None,
            },
            None => None,
        }
    }

    proof fn lemma_read_wire(&self, rest: Seq<u8>) {
        let p_1 = self.by_sender.wire();
        let p_2 = p_1 + self.by_recipient.wire();
        let p_3 = p_2 + self.by_sender_and_recipient.wire();
        let p_4 = p_3 + self.by_input_object.wire();
        let p_5 = p_4 + self.by_created_object.wire();
        let p_6 = p_5 + self.by_mutated_object.wire();
        let p_7 = p_6 + self.by_deleted_object.wire();
        let p_8 = p_7 + self.by_wrapped_object.wire();
        let p_9 = p_8 + self.by_move_call.wire();
        let p_10 = p_9 + self.by_package.wire();
        let p_11 = p_10 + self.by_module.wire();
        let tail_12 = rest;
        let tail_11 = self.by_transaction_kind.wire() + tail_12;
        let tail_10 = self.by_module.wire() + tail_11;
        let tail_9 = self.by_package.wire() + tail_10;
        let tail_8 = self.by_move_call.wire() + tail_9;
        let tail_7 = self.by_wrapped_object.wire() + tail_8;
        let tail_6 = self.by_deleted_object.wire() + tail_7;
        let tail_5 = self.by_mutated_object.wire() + tail_6;
        let tail_4 = self.by_created_object.wire() + tail_5;
        let tail_3 = self.by_input_object.wire() + tail_4;
        let tail_2 = self.by_sender_and_recipient.wire() + tail_3;
        let tail_1 = self.by_recipient.wire() + tail_2;
        self.by_sender.lemma_read_wire(tail_1);
        self.by_recipient.lemma_read_wire(tail_2);
        self.by_sender_and_recipient.lemma_read_wire(tail_3);
        self.by_input_object.lemma_read_wire(tail_4);
        self.by_created_object.lemma_read_wire(tail_5);
        self.by_mutated_object.lemma_read_wire(tail_6);
        self.by_deleted_object.lemma_read_wire(tail_7);
        self.by_wrapped_object.lemma_read_wire(tail_8);
        self.by_move_call.lemma_read_wire(tail_9);
        self.by_package.lemma_read_wire(tail_10);
        self.by_module.lemma_read_wire(tail_11);
        self.by_transaction_kind.lemma_read_wire(tail_12);
        lemma_concat_assoc(p_11, self.by_transaction_kind.wire(), tail_12);
        lemma_concat_assoc(p_10, self.by_module.wire(), tail_11);
        lemma_concat_assoc(p_9, self.by_package.wire(), tail_10);
        lemma_concat_assoc(p_8, self.by_move_call.wire(), tail_9);
        lemma_concat_assoc(p_7, self.by_wrapped_object.wire(), tail_8);
        lemma_concat_assoc(p_6, self.by_deleted_object.wire(), tail_7);
        lemma_concat_assoc(p_5, self.by_mutated_object.wire(), tail_6);
        lemma_concat_assoc(p_4, self.by_created_object.wire(), tail_5);
        lemma_concat_assoc(p_3, self.by_input_object.wire(), tail_4);
        lemma_concat_assoc(p_2, self.by_sender_and_recipient.wire(), tail_3);
        lemma_concat_assoc(p_1, self.by_recipient.wire(), tail_2);
        assert(self.wire() + rest == p_1 + tail_1);
    }

    fn encode(&self, out: &mut Vec<u8>) {
        let ghost o = old(out)@;
        let ghost p_1 = self.by_sender.wire();
        self.by_sender.encode(out);
        self.by_recipient.encode(out);
        proof {
            lemma_concat_assoc(o, p_1, self.by_recipient.wire());
        }
        let ghost p_2 = p_1 + self.by_recipient.wire();
        self.by_sender_and_recipient.encode(out);
        proof {
            lemma_concat_assoc(o, p_2, self.by_sender_and_recipient.wire());
        }
        let ghost p_3 = p_2 + self.by_sender_and_recipient.wire();
        self.by_input_object.encode(out);
        proof {
            lemma_concat_assoc(o, p_3, self.by_input_object.wire());
        }
        let ghost p_4 = p_3 + self.by_input_object.wire();
        self.by_created_object.encode(out);
        proof {
            lemma_concat_assoc(o, p_4, self.by_created_object.wire());
        }
        let ghost p_5 = p_4 + self.by_created_object.wire();
        self.by_mutated_object.encode(out);
        proof {
            lemma_concat_assoc(o, p_5, self.by_mutated_object.wire());
        }
        let ghost p_6 = p_5 + self.by_mutated_object.wire();
        self.by_deleted_object.encode(out);
        proof {
            lemma_concat_assoc(o, p_6, self.by_deleted_object.wire());
        }
        let ghost p_7 = p_6 + self.by_deleted_object.wire();
        self.by_wrapped_object.encode(out);
        proof {
            lemma_concat_assoc(o, p_7, self.by_wrapped_object.wire());
        }
        let ghost p_8 = p_7 + self.by_wrapped_object.wire();
        self.by_move_call.encode(out);
        proof {
            lemma_concat_assoc(o, p_8, self.by_move_call.wire());
        }
        let ghost p_9 = p_8 + self.by_move_call.wire();
        self.by_package.encode(out);
        proof {
            lemma_concat_assoc(o, p_9, self.by_package.wire());
        }
        let ghost p_10 = p_9 + self.by_package.wire();
        self.by_module.encode(out);
        proof {
            lemma_concat_assoc(o, p_10, self.by_module.wire());
        }
        let ghost p_11 = p_10 + self.by_module.wire();
        self.by_transaction_kind.encode(out);
        proof {
            lemma_concat_assoc(o, p_11, self.by_transaction_kind.wire());
        }
        assert(out@ == o + self.wire());
    }

    fn decode(reader: &mut Reader<'_>) -> (r: Option<Self>) {
        let by_sender = match VecMap::<SuiAddress, DigestSet>::decode(reader) {
            Some(v) => v,
            None => {
                return None;
            },
        };
        let by_recipient = match VecMap::<SuiAddress, DigestSet>::decode(reader) {
            Some(v) => v,
            None => {
                return None;
            },
        };
        let by_sender_and_recipient = match VecMap::<(SuiAddress, SuiAddress), DigestSet>::decode(reader) {
            Some(v) => v,
            None => {
                return None;
            },
        };
        let by_input_object = match VecMap::<ObjectID, DigestSet>::decode(reader) {
            Some(v) => v,
            None => {
                return None;
            },
        };
        let by_created_object = match VecMap::<ObjectID, DigestSet>::decode(reader) {
            Some(v) => v,
            None => {
                return None;
            },
        };
        let by_mutated_object = match VecMap::<ObjectID, DigestSet>::decode(reader) {
            Some(v) => v,
            None => {
                return None;
            },
        };
        let by_deleted_object = match VecMap::<ObjectID, DigestSet>::decode(reader) {
            Some(v) => v,
            None => {
                return None;
            },
        };
        let by_wrapped_object = match VecMap::<ObjectID, DigestSet>::decode(reader) {
            Some(v) => v,
            None => {
                return None;
            },
        };
        let by_move_call = match VecMap::<MoveCallSignature, DigestSet>::decode(reader) {
            Some(v) => v,
            None => {
                return None;
            },
        };
        let by_package = match VecMap::<ObjectID, DigestSet>::decode(reader) {
            Some(v) => v,
            None => {
                return None;
            },
        };
        let by_module = match VecMap::<(ObjectID, String), DigestSet>::decode(reader) {
            Some(v) => v,
            None => {
                return None;
            },
        };
        let by_transaction_kind = match VecMap::<String, DigestSet>::decode(reader) {
            Some(v) => v,
            None => {
                return None;
            },
        };
        let r = TransactionIndices { by_sender, by_recipient, by_sender_and_recipient, by_input_object, by_created_object, by_mutated_object, by_deleted_object, by_wrapped_object, by_move_call, by_package, by_module, by_transaction_kind };
        assert(r.valid());
        Some(r)
    }
}

impl Wire for StorageSnapshot {
    open spec fn fits(&self) -> bool {
        &&& self.objects.fits()
        &&& self.address_objects.fits()
        &&& self.object_addresses.fits()
        &&& self.timelines.fits()
        &&& self.transactions.fits()
        &&& self.transaction_indices.fits()
        &&& self.checkpoint.fits()
    }

    open spec fn wire(&self) -> Seq<u8> {
        self.objects.wire() + self.address_objects.wire() + self.object_addresses.wire() + self.timelines.wire() + self.transactions.wire() + self.transaction_indices.wire() + self.checkpoint.wire()
    }

    open spec fn read(bytes: Seq<u8>) -> Option<(StorageView, Seq<u8>)> {
        match VecMap::<ObjectID, Object>::read(bytes) {
            Some((objects, after_objects)) => match VecMap::<Owner, KeySet<ObjectID>>::read(after_objects) {
                Some((address_objects, after_address_objects)) => match VecMap::<ObjectID, Owner>::read(after_address_objects) {
                    Some((object_addresses, after_object_addresses)) => match VecMap::<ObjectID, ObjectTimeline>::read(after_object_addresses) {
                        Some((timelines, after_timelines)) => match VecMap::<TransactionDigest, TransactionBlockResponse>::read(after_timelines) {
                            Some((transactions, after_transactions)) => match TransactionIndices::read(after_transactions) {
                                Some((transaction_indices, after_transaction_indices)) => match u64::read(after_transaction_indices) {
                                    Some((checkpoint, after_checkpoint)) =>
                                        Some((StorageView { objects, address_objects, object_addresses, timelines, transactions, transaction_indices, checkpoint }, after_checkpoint)),
                                    None => None,
                                },
                                None => None,
                            },
                            None => None,
                        },
                        None => None,
                    },
                    None => None,
                },
                None => None,
            },
            None => None,
        }
    }

    proof fn lemma_read_wire(&self, rest: Seq<u8>) {
        let p_1 = self.objects.wire();
        let p_2 = p_1 + self.address_objects.wire();
        let p_3 = p_2 + self.object_addresses.wire();
        let p_4 = p_3 + self.timelines.wire();
        let p_5 = p_4 + self.transactions.wire();
        let p_6 = p_5 + self.transaction_indices.wire();
        let tail_7 = rest;
        let tail_6 = self.checkpoint.wire() + tail_7;
        let tail_5 = self.transaction_indices.wire() + tail_6;
        let tail_4 = self.transactions.wire() + tail_5;
        let tail_3 = self.timelines.wire() + tail_4;
        let tail_2 = self.object_addresses.wire() + tail_3;
        let tail_1 = self.address_objects.wire() + tail_2;
        self.objects.lemma_read_wire(tail_1);
        self.address_objects.lemma_read_wire(tail_2);
        self.object_addresses.lemma_read_wire(tail_3);
        self.timelines.lemma_read_wire(tail_4);
        self.transactions.lemma_read_wire(tail_5);
        self.transaction_indices.lemma_read_wire(tail_6);
        self.checkpoint.lemma_read_wire(tail_7);
        lemma_concat_assoc(p_6, self.checkpoint.wire(), tail_7);
        lemma_concat_assoc(p_5, self.transaction_indices.wire(), tail_6);
        lemma_concat_assoc(p_4, self.transactions.wire(), tail_5);
        lemma_concat_assoc(p_3, self.timelines.wire(), tail_4);
        lemma_concat_assoc(p_2, self.object_addresses.wire(), tail_3);
        lemma_concat_assoc(p_1, self.address_objects.wire(), tail_2);
        assert(self.wire() + rest == p_1 + tail_1);
    }

    fn encode(&self, out: &mut Vec<u8>) {
        let ghost o = old(out)@;
        let ghost p_1 = self.objects.wire();
        self.objects.encode(out);
        self.address_objects.encode(out);
        proof {
            lemma_concat_assoc(o, p_1, self.address_objects.wire());
        }
        let ghost p_2 = p_1 + self.address_objects.wire();
        self.object_addresses.encode(out);
        proof {
            lemma_concat_assoc(o, p_2, self.object_addresses.wire());
        }
        let ghost p_3 = p_2 + self.object_addresses.wire();
        self.timelines.encode(out);
        proof {
            lemma_concat_assoc(o, p_3, self.timelines.wire());
        }
        let ghost p_4 = p_3 + self.timelines.wire();
        self.transactions.encode(out);
        proof {
            lemma_concat_assoc(o, p_4, self.transactions.wire());
        }
        let ghost p_5 = p_4 + self.transactions.wire();
        self.transaction_indices.encode(out);
        proof {
            lemma_concat_assoc(o, p_5, self.transaction_indices.wire());
        }
        let ghost p_6 = p_5 + self.transaction_indices.wire();
        self.checkpoint.encode(out);
        proof {
            lemma_concat_assoc(o, p_6, self.checkpoint.wire());
        }
        assert(out@ == o + self.wire());
    }

    fn decode(reader: &mut Reader<'_>) -> (r: Option<Self>) {
        let objects = match VecMap::<ObjectID, Object>::decode(reader) {
            Some(v) => v,
            None => {
                return None;
            },
        };
        let address_objects = match VecMap::<Owner, KeySet<ObjectID>>::decode(reader) {
            Some(v) => v,
            None => {
                return None;
            },
        };
        let object_addresses = match VecMap::<ObjectID, Owner>::decode(reader) {
            Some(v) => v,
            None => {
                return None;
            },
        };
        let timelines = match VecMap::<ObjectID, ObjectTimeline>::decode(reader) {
            Some(v) => v,
            None => {
                return None;
            },
        };
        let transactions = match VecMap::<TransactionDigest, TransactionBlockResponse>::decode(reader) {
            Some(v) => v,
            None => {
                return None;
            },
        };
        let transaction_indices = match TransactionIndices::decode(reader) {
            Some(v) => v,
            None => {
                return None;
            },
        };
        let checkpoint = match u64::decode(reader) {
            Some(v) => v,
            None => {
                return None;
            },
        };
        let r = StorageSnapshot { objects, address_objects, object_addresses, timelines, transactions, transaction_indices, checkpoint };
        assert(r.valid());
        Some(r)
    }
}

} // verus!

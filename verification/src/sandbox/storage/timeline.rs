//! The history of one object: every version that was recorded, and whether
//! the object was deleted.

use crate::base_types::SequenceNumber;
use crate::codec::{
    get_opt, lemma_concat_assoc, lemma_read_wire_opt, put_opt, read_opt, wire_opt, Reader, Wire,
};
use crate::collections::{DeepClone, VecMap};
use crate::object::{Object, ObjectView};
use vstd::prelude::*;

verus! {

/// The recorded versions of one object, and the version at which it was
/// deleted, if it was.
pub struct ObjectTimeline {
    versions: VecMap<SequenceNumber, Object>,
    latest: Option<SequenceNumber>,
    deleted_at: Option<SequenceNumber>,
}

pub struct TimelineView {
    pub versions: Map<SequenceNumber, ObjectView>,
    pub deleted_at: Option<SequenceNumber>,
}

impl TimelineView {
    pub open spec fn empty() -> TimelineView {
        TimelineView { versions: Map::empty(), deleted_at: None }
    }

    /// Whether `v` is recorded and no recorded version is higher.
    pub open spec fn is_latest(self, v: SequenceNumber) -> bool {
        &&& self.versions.contains_key(v)
        &&& forall|w: SequenceNumber| self.versions.contains_key(w) ==> w <= v
    }

    /// The highest recorded version, if any version is recorded.
    pub open spec fn latest(self) -> Option<SequenceNumber> {
        if exists|v: SequenceNumber| self.is_latest(v) {
            Some(choose|v: SequenceNumber| self.is_latest(v))
        } else {
            None
        }
    }

    /// The timeline after `object` was recorded at its version.
    pub open spec fn record(self, object: ObjectView) -> TimelineView {
        TimelineView { versions: self.versions.insert(object.version, object), ..self }
    }

    /// The timeline after the object was deleted: the marker is the highest
    /// recorded version, or stays as it was where nothing is recorded.
    pub open spec fn mark_deleted(self) -> TimelineView {
        match self.latest() {
            Some(l) => TimelineView { deleted_at: Some(l), ..self },
            None => self,
        }
    }

    pub open spec fn clear_deleted(self) -> TimelineView {
        TimelineView { deleted_at: None, ..self }
    }

    /// The highest recorded version is the only version that `is_latest`.
    pub proof fn lemma_latest_unique(self, v: SequenceNumber)
        requires
            self.is_latest(v),
        ensures
            self.latest() == Some(v),
    {
        let c = choose|w: SequenceNumber| self.is_latest(w);
        assert(self.is_latest(c));
        assert(c <= v && v <= c);
    }
}

impl View for ObjectTimeline {
    type V = TimelineView;

    closed spec fn view(&self) -> TimelineView {
        TimelineView { versions: self.versions@, deleted_at: self.deleted_at }
    }
}

impl ObjectTimeline {
    /// The cached highest version is the highest recorded one, and a
    /// deletion marker names a recorded version.
    pub closed spec fn wf(&self) -> bool {
        &&& self.versions.wf()
        &&& match self.latest {
            Some(l) => self@.is_latest(l),
            None => self.versions@.dom() =~= Set::empty(),
        }
        &&& match self.deleted_at {
            Some(d) => self.versions@.contains_key(d),
            None => true,
        }
    }

    /// What well-formedness says of the view.
    pub proof fn lemma_wf(&self)
        requires
            self.wf(),
        ensures
            self@.latest() is None <==> self@.versions.dom() =~= Set::empty(),
            self@.latest() matches Some(l) ==> self@.is_latest(l),
            self@.deleted_at matches Some(d) ==> self@.versions.contains_key(d),
    {
        match self.latest {
            Some(l) => {
                self@.lemma_latest_unique(l);
                assert(self@.versions.dom().contains(l));
            },
            None => {
                if exists|v: SequenceNumber| self@.is_latest(v) {
                    let v = choose|v: SequenceNumber| self@.is_latest(v);
                    assert(self@.versions.dom().contains(v));
                }
            },
        }
    }

    pub fn new() -> (t: Self)
        ensures
            t.wf(),
            t@ == TimelineView::empty(),
    {
        ObjectTimeline { versions: VecMap::new(), latest: None, deleted_at: None }
    }

    /// Records `object` at its version, replacing what was recorded there.
    pub fn record(&mut self, object: Object)
        requires
            old(self).wf(),
        ensures
            final(self).wf(),
            final(self)@ == old(self)@.record(object@),
    {
        proof {
            self.lemma_wf();
        }
        let version = object.version;
        self.versions.insert(version, object);
        self.latest = match self.latest {
            Some(l) => Some(if l < version { version } else { l }),
            None => Some(version),
        };
        proof {
            assert(self@ == old(self)@.record(object@));
            match old(self).latest {
                Some(l) => {
                    assert(old(self)@.is_latest(l));
                    let m = if l < version { version } else { l };
                    assert(self@.is_latest(m));
                },
                None => {
                    assert(self@.is_latest(version)) by {
                        assert forall|w: SequenceNumber|
                            self@.versions.contains_key(w) implies w <= version by {
                            if w != version {
                                assert(old(self)@.versions.dom().contains(w));
                            }
                        }
                    }
                },
            }
        }
    }

    /// Marks the object as deleted at its highest recorded version.
    pub fn mark_deleted(&mut self)
        requires
            old(self).wf(),
        ensures
            final(self).wf(),
            final(self)@ == old(self)@.mark_deleted(),
    {
        proof {
            self.lemma_wf();
        }
        match self.latest {
            Some(l) => {
                self.deleted_at = Some(l);
                proof {
                    old(self)@.lemma_latest_unique(l);
                    assert(self@.is_latest(l));
                }
            },
            None => {},
        }
    }

    /// Removes the deletion marker.
    pub fn clear_deleted(&mut self)
        requires
            old(self).wf(),
        ensures
            final(self).wf(),
            final(self)@ == old(self)@.clear_deleted(),
    {
        self.deleted_at = None;
        proof {
            match self.latest {
                Some(l) => {
                    assert(old(self)@.is_latest(l));
                    assert(self@.is_latest(l));
                },
                None => {},
            }
        }
    }

    /// The object recorded at `version`.
    pub fn get(&self, version: SequenceNumber) -> (r: Option<&Object>)
        requires
            self.wf(),
        ensures
            match r {
                Some(o) => self@.versions.contains_key(version) && o@ == self@.versions[version],
                None => !self@.versions.contains_key(version),
            },
    {
        self.versions.get(&version)
    }

    /// The highest recorded version.
    pub fn latest_version(&self) -> (r: Option<SequenceNumber>)
        requires
            self.wf(),
        ensures
            r == self@.latest(),
    {
        proof {
            self.lemma_wf();
            match self.latest {
                Some(l) => {
                    self@.lemma_latest_unique(l);
                },
                None => {},
            }
        }
        self.latest
    }

    /// The recorded versions.
    pub fn versions(&self) -> (r: &VecMap<SequenceNumber, Object>)
        ensures
            r@ == self@.versions,
            self.wf() ==> r.wf(),
    {
        &self.versions
    }

    /// The timeline that holds `versions` and the deletion marker; nothing
    /// where the marker names a version that is not among them.
    pub fn from_parts(versions: VecMap<SequenceNumber, Object>, deleted_at: Option<SequenceNumber>) -> (r:
        Option<Self>)
        requires
            versions.wf(),
        ensures
            match r {
                Some(t) => t.wf() && t@ == (TimelineView { versions: versions@, deleted_at }),
                None => deleted_at matches Some(d) && !versions@.contains_key(d),
            },
    {
        match deleted_at {
            Some(d) => {
                if !versions.contains_key(&d) {
                    return None;
                }
            },
            None => {},
        }
        let mut latest: Option<SequenceNumber> = None;
        let mut i: usize = 0;
        proof {
            versions.lemma_entries();
        }
        while i < versions.len()
            invariant
                i <= versions.key_seq().len(),
                versions.wf(),
                match latest {
                    Some(l) => (exists|j: int| 0 <= j < i && versions.key_seq()[j] == l) && forall|
                        j: int,
                    | 0 <= j < i ==> versions.key_seq()[j] <= l,
                    None => i == 0,
                },
            decreases versions.key_seq().len() - i,
        {
            let v = *versions.key_at(i);
            latest = match latest {
                Some(l) => Some(if l < v { v } else { l }),
                None => Some(v),
            };
            i += 1;
        }
        let t = ObjectTimeline { versions, latest, deleted_at };
        proof {
            t.versions.lemma_entries();
            match latest {
                Some(l) => {
                    assert forall|w: SequenceNumber| t@.versions.contains_key(w) implies w <= l by {
                        let j = t.versions.key_seq().index_of(w);
                        assert(t.versions.key_seq()[j] == w);
                    }
                    assert(t@.is_latest(l));
                },
                None => {
                    assert(t.versions.key_seq().len() == 0);
                    assert(t.versions@.dom() =~= Set::empty());
                },
            }
        }
        Some(t)
    }

    /// The version at which the object was deleted, if it was.
    pub fn deleted_at(&self) -> (r: Option<SequenceNumber>)
        ensures
            r == self@.deleted_at,
    {
        self.deleted_at
    }
}

impl DeepClone for ObjectTimeline {
    open spec fn valid(&self) -> bool {
        self.wf()
    }

    fn deep_clone(&self) -> (r: Self) {
        let r = ObjectTimeline {
            versions: self.versions.deep_clone(),
            latest: self.latest,
            deleted_at: self.deleted_at,
        };
        proof {
            if self.wf() {
                match self.latest {
                    Some(l) => {
                        assert(self@.is_latest(l));
                        assert(r@.is_latest(l));
                    },
                    None => {},
                }
            }
        }
        assert(self.valid() ==> r.valid());
        r
    }
}


impl Wire for ObjectTimeline {
    closed spec fn fits(&self) -> bool {
        self.versions.fits()
    }

    closed spec fn wire(&self) -> Seq<u8> {
        self.versions.wire() + wire_opt(self.deleted_at)
    }

    /// A timeline is read as its versions and its deletion marker; a
    /// marker that names a version that is not recorded is refused.
    open spec fn read(bytes: Seq<u8>) -> Option<(TimelineView, Seq<u8>)> {
        match VecMap::<SequenceNumber, Object>::read(bytes) {
            Some((versions, after)) => match read_opt::<SequenceNumber>(after) {
                Some((deleted_at, rest)) => match deleted_at {
                    Some(d) => if versions.contains_key(d) {
                        Some((TimelineView { versions, deleted_at }, rest))
                    } else {
                        None
                    },
                    None => Some((TimelineView { versions, deleted_at }, rest)),
                },
                None => None,
            },
            None => None,
        }
    }

    proof fn lemma_read_wire(&self, rest: Seq<u8>) {
        self.versions.lemma_read_wire(wire_opt(self.deleted_at) + rest);
        lemma_read_wire_opt(self.deleted_at, rest);
        lemma_concat_assoc(self.versions.wire(), wire_opt(self.deleted_at), rest);
    }

    fn encode(&self, out: &mut Vec<u8>) {
        let ghost o = old(out)@;
        self.versions.encode(out);
        put_opt(&self.deleted_at, out);
        proof {
            lemma_concat_assoc(o, self.versions.wire(), wire_opt(self.deleted_at));
        }
    }

    fn decode(reader: &mut Reader<'_>) -> (r: Option<Self>) {
        let versions = match VecMap::<SequenceNumber, Object>::decode(reader) {
            Some(v) => v,
            None => {
                return None;
            },
        };
        let deleted_at = match get_opt::<SequenceNumber>(reader) {
            Some(v) => v,
            None => {
                return None;
            },
        };
        match ObjectTimeline::from_parts(versions, deleted_at) {
            Some(t) => {
                assert(t.valid());
                Some(t)
            },
            None => None,
        }
    }
}

} // verus!

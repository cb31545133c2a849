//! The dirty flags of a cached transform: which of the local, the
//! projection and the combined matrix has to be computed anew.
//!
//! The matrices themselves are the backend's: this module decides, the
//! backend computes. Edits of the parameters and resizes of the viewport
//! are counted in the model, so that the contracts can say from which
//! parameters and which size each cached matrix was computed.

use vstd::prelude::*;

verus! {

/// What a call of `generate` asks to be computed, in this order: the local
/// matrix from the parameters, the projection from the viewport's size, the
/// combined matrix as projection times local.
#[derive(Clone, Copy, Debug, PartialEq, Eq, Structural)]
pub struct Recompute {
    pub local: bool,
    pub projection: bool,
    pub combined: bool,
}

impl Recompute {
    /// Whether the combined matrix changes, so that readers have to take
    /// the new one.
    pub open spec fn changes(self) -> bool {
        self.combined
    }

    /// Whether the combined matrix changes, so that readers have to take
    /// the new one.
    pub fn changed(&self) -> (r: bool)
        ensures
            r == self.changes(),
    {
        self.combined
    }
}

/// The mathematical state of the cache.
pub struct CacheModel {
    pub local_dirty: bool,
    pub projection_dirty: bool,
    pub combined_dirty: bool,
    /// The number of edits of the parameters so far.
    pub edits: nat,
    /// The number of resizes of the viewport so far.
    pub resizes: nat,
    /// The number of edits that the cached local matrix reflects.
    pub local_of: nat,
    /// The number of resizes that the cached projection reflects, if one
    /// was ever computed.
    pub projection_of: Option<nat>,
    /// The edits and resizes that the cached combined matrix reflects, if
    /// one was ever computed.
    pub combined_of: Option<(nat, nat)>,
}

/// One use of the cache.
pub enum CacheOp {
    Edit,
    Resize,
    Generate,
}

impl CacheModel {
    /// The invariant: a matrix whose flag is clear reflects the current
    /// inputs, and the combined matrix is dirty whenever one of the two
    /// that it is made of is.
    pub open spec fn wf(self) -> bool {
        &&& self.local_dirty || self.projection_dirty ==> self.combined_dirty
        &&& !self.local_dirty ==> self.local_of == self.edits
        &&& !self.projection_dirty ==> self.projection_of == Some(self.resizes)
        &&& !self.combined_dirty ==> self.combined_of == Some((self.edits, self.resizes))
    }

    /// Whether the cached combined matrix is projection times local for the
    /// current parameters and size.
    pub open spec fn current(self) -> bool {
        self.combined_of == Some((self.edits, self.resizes))
    }

    /// The cache of a new transform: nothing is computed yet.
    pub open spec fn initial() -> Self {
        CacheModel {
            local_dirty: true,
            projection_dirty: true,
            combined_dirty: true,
            edits: 0,
            resizes: 0,
            local_of: 0,
            projection_of: None,
            combined_of: None,
        }
    }

    /// The cache after the parameters were opened for an edit.
    pub open spec fn set(self) -> Self {
        CacheModel { local_dirty: true, combined_dirty: true, edits: self.edits + 1, ..self }
    }

    /// The cache after the viewport was resized.
    pub open spec fn set_size(self) -> Self {
        CacheModel {
            projection_dirty: true,
            combined_dirty: true,
            resizes: self.resizes + 1,
            ..self
        }
    }

    /// What `generate` asks to be computed: each matrix whose flag is set.
    pub open spec fn plan(self) -> Recompute {
        Recompute {
            local: self.local_dirty,
            projection: self.projection_dirty,
            combined: self.combined_dirty,
        }
    }

    /// The cache after `generate`, its plan carried out.
    pub open spec fn generate(self) -> Self {
        let local_of = if self.local_dirty {
            self.edits
        } else {
            self.local_of
        };
        let projection_of = if self.projection_dirty {
            Some(self.resizes)
        } else {
            self.projection_of
        };
        CacheModel {
            local_dirty: false,
            projection_dirty: false,
            combined_dirty: false,
            local_of,
            projection_of,
            combined_of: if self.combined_dirty {
                Some((local_of, projection_of->0))
            } else {
                self.combined_of
            },
            ..self
        }
    }

    /// The cache after `op`.
    pub open spec fn step(self, op: CacheOp) -> Self {
        match op {
            CacheOp::Edit => self.set(),
            CacheOp::Resize => self.set_size(),
            CacheOp::Generate => self.generate(),
        }
    }

    /// The cache after the uses in `ops`, first to last.
    pub open spec fn run(self, ops: Seq<CacheOp>) -> Self
        decreases ops.len(),
    {
        if ops.len() == 0 {
            self
        } else {
            self.run(ops.drop_last()).step(ops.last())
        }
    }

    /// Whatever is done with a cache, it keeps its invariant.
    pub proof fn lemma_run_wf(self, ops: Seq<CacheOp>)
        requires
            self.wf(),
        ensures
            self.run(ops).wf(),
        decreases ops.len(),
    {
        if ops.len() > 0 {
            self.lemma_run_wf(ops.drop_last());
        }
    }

    /// Whatever was done with a cache before, `generate` leaves the
    /// combined matrix current, computes nothing whose inputs did not
    /// change, and a second `generate` right after it reports no change
    /// and asks for nothing.
    pub proof fn law_generate_is_lazy(self, ops: Seq<CacheOp>)
        requires
            self.wf(),
        ensures
            self.run(ops).generate().current(),
            self.run(ops).plan().local ==> self.run(ops).plan().combined,
            self.run(ops).plan().projection ==> self.run(ops).plan().combined,
            !self.run(ops).plan().changes() ==> self.run(ops).current(),
            self.run(ops).generate().plan() == (Recompute {
                local: false,
                projection: false,
                combined: false,
            }),
            self.run(ops).generate().generate() == self.run(ops).generate(),
    {
        self.lemma_run_wf(ops);
    }

    /// After an edit of the parameters, `generate` computes the local and
    /// the combined matrix anew and reports the change.
    pub proof fn law_edit_is_seen(self)
        requires
            self.wf(),
        ensures
            self.set().plan().local,
            self.set().plan().changes(),
            self.set().generate().current(),
            self.set().generate().local_of == self.edits + 1,
    {
    }

    /// After a resize of the viewport, `generate` computes the projection
    /// and the combined matrix anew and reports the change.
    pub proof fn law_resize_is_seen(self)
        requires
            self.wf(),
        ensures
            self.set_size().plan().projection,
            self.set_size().plan().changes(),
            self.set_size().generate().current(),
            self.set_size().generate().projection_of == Some(self.resizes + 1),
    {
    }
}

/// What the cache reflects, counted.
pub struct Reflected {
    pub edits: nat,
    pub resizes: nat,
    pub local_of: nat,
    pub projection_of: Option<nat>,
    pub combined_of: Option<(nat, nat)>,
}

/// The parameters and the viewport's size of a transform, with the dirty
/// flags of its cached matrices. `P` holds the parameters and `V` the size.
pub struct Transform<P, V> {
    params: P,
    logical_size: V,
    transform_dirty: bool,
    ortho_dirty: bool,
    ortho_transform_dirty: bool,
    reflected: Ghost<Reflected>,
}

impl<P, V> Transform<P, V> {
    /// The mathematical state of the cache.
    pub closed spec fn view(&self) -> CacheModel {
        CacheModel {
            local_dirty: self.transform_dirty,
            projection_dirty: self.ortho_dirty,
            combined_dirty: self.ortho_transform_dirty,
            edits: self.reflected@.edits,
            resizes: self.reflected@.resizes,
            local_of: self.reflected@.local_of,
            projection_of: self.reflected@.projection_of,
            combined_of: self.reflected@.combined_of,
        }
    }

    /// The parameters.
    pub closed spec fn params(&self) -> P {
        self.params
    }

    /// The logical size of the viewport.
    pub closed spec fn size(&self) -> V {
        self.logical_size
    }

    /// The invariant of the cache, which every function keeps.
    pub open spec fn wf(&self) -> bool {
        self@.wf()
    }

    /// A transform with nothing computed yet.
    pub fn new(params: P, logical_size: V) -> (r: Transform<P, V>)
        ensures
            r.wf(),
            r@ == CacheModel::initial(),
            r.params() == params,
            r.size() == logical_size,
    {
        Transform {
            params,
            logical_size,
            transform_dirty: true,
            ortho_dirty: true,
            ortho_transform_dirty: true,
            reflected: Ghost(
                Reflected {
                    edits: 0,
                    resizes: 0,
                    local_of: 0,
                    projection_of: None,
                    combined_of: None,
                },
            ),
        }
    }

    /// The parameters, to be read.
    pub fn get(&self) -> (r: &P)
        ensures
            *r == self.params(),
    {
        &self.params
    }

    /// The logical size of the viewport, to be read.
    pub fn logical_size(&self) -> (r: &V)
        ensures
            *r == self.size(),
    {
        &self.logical_size
    }

    /// The parameters, to be edited. The local and the combined matrix count
    /// as changed from now on, whatever the edit.
    pub fn set(&mut self) -> (r: &mut P)
        requires
            old(self).wf(),
        ensures
            final(self).wf(),
            *r == old(self).params(),
            final(self).params() == *final(r),
            final(self).size() == old(self).size(),
            final(self)@ == old(self)@.set(),
    {
        self.transform_dirty = true;
        self.ortho_transform_dirty = true;
        proof {
            self.reflected@ = Reflected { edits: self.reflected@.edits + 1, ..self.reflected@ };
        }
        &mut self.params
    }

    /// Takes the new logical size of the viewport. The projection and the
    /// combined matrix count as changed from now on.
    pub fn set_size(&mut self, logical_size: V)
        requires
            old(self).wf(),
        ensures
            final(self).wf(),
            final(self)@ == old(self)@.set_size(),
            final(self).size() == logical_size,
            final(self).params() == old(self).params(),
    {
        self.ortho_dirty = true;
        self.ortho_transform_dirty = true;
        self.logical_size = logical_size;
        proof {
            self.reflected@ = Reflected { resizes: self.reflected@.resizes + 1, ..self.reflected@ };
        }
    }

    /// Says which matrices have to be computed anew, and takes them as
    /// computed. Nothing is asked for whose inputs did not change; once the
    /// plan is carried out the combined matrix is current.
    pub fn generate(&mut self) -> (r: Recompute)
        requires
            old(self).wf(),
        ensures
            final(self).wf(),
            r == old(self)@.plan(),
            final(self)@ == old(self)@.generate(),
            final(self)@.current(),
            !r.changes() ==> old(self)@.current(),
            final(self).params() == old(self).params(),
            final(self).size() == old(self).size(),
    {
        let plan = Recompute {
            local: self.transform_dirty,
            projection: self.ortho_dirty,
            combined: self.ortho_transform_dirty,
        };
        proof {
            self.reflected@ = Reflected {
                edits: self@.edits,
                resizes: self@.resizes,
                local_of: self@.generate().local_of,
                projection_of: self@.generate().projection_of,
                combined_of: self@.generate().combined_of,
            };
        }
        self.transform_dirty = false;
        self.ortho_dirty = false;
        self.ortho_transform_dirty = false;
        plan
    }
}

} // verus!

use vstd::prelude::*;

verus! {

use crate::dense_store::DenseStore;
use crate::error::Error;
use crate::model::INSTANCE_BYTES;
use crate::model::Model;
use crate::model::ModelInstance;
use crate::model::instances_le_bytes;
use crate::model::pack_instances;

/// The most live instances one model may hold: a handle addresses its
/// instance with a 16-bit key.
pub const MAX_INSTANCES: usize = 65536;

/// The most models a renderer may register: a handle names its model with a
/// 16-bit id.
pub const MAX_MODELS: usize = 65536;

/// The capacity, in bytes, given to a model's instance buffer when the model
/// is registered. The buffer grows, with headroom, whenever the live
/// instances outgrow it.
pub const INITIAL_INSTANCE_BUFFER_BYTES: usize = 16384;

/// An opaque handle to one inserted instance: which model it belongs to and
/// the stable key the model's store issued for it. It becomes invalid the
/// moment `remove_instance` accepts it.
#[derive(Clone, Copy, Debug, PartialEq, Eq, Structural)]
pub struct InstanceHandle {
    model: u16,
    index: u16,
}

impl InstanceHandle {
    /// The model this handle points into.
    pub closed spec fn model_index(self) -> int {
        self.model as int
    }

    /// The key this handle resolves through.
    pub closed spec fn key(self) -> usize {
        self.index as usize
    }
}

/// One registered model: its dense instance store, the bookkeeping for its
/// GPU-side instance buffer, and the dirty flag that marks the buffer stale
/// relative to the store.
pub struct ModelEntry {
    store: DenseStore<ModelInstance>,
    dirty: bool,
    buffer_bytes: usize,
    index_count: usize,
}

impl ModelEntry {
    /// This model's instance store.
    pub closed spec fn store(self) -> DenseStore<ModelInstance> {
        self.store
    }

    /// Whether the GPU-side copy is stale and must be uploaded this frame.
    pub closed spec fn dirty(self) -> bool {
        self.dirty
    }

    /// The current capacity of the model's instance buffer, in bytes.
    pub closed spec fn buffer_bytes(self) -> usize {
        self.buffer_bytes
    }

    /// How many indices the model's static mesh draws with.
    pub closed spec fn index_count(self) -> usize {
        self.index_count
    }

    pub open spec fn wf(self) -> bool {
        &&& self.store().wf()
        &&& self.store().vals().len() <= MAX_INSTANCES
        &&& self.store().slots() <= MAX_INSTANCES
        &&& self.buffer_bytes() >= INITIAL_INSTANCE_BUFFER_BYTES
        &&& self.buffer_bytes() >= INSTANCE_BYTES * self.store().vals().len()
    }
}

/// One pending buffer upload: copy `data` into the named model's instance
/// buffer, of `buffer_bytes` capacity, at offset 0.
pub struct UploadCmd {
    pub model: u16,
    pub buffer_bytes: usize,
    pub data: Vec<u8>,
}

/// One instanced draw: the named model's static geometry, `index_count`
/// indices, repeated for the model's current dense instance count.
#[derive(Clone, Copy, Debug, PartialEq, Eq, Structural)]
pub struct DrawCmd {
    pub model: u16,
    pub index_count: usize,
    pub instance_count: usize,
}

/// The registry that owns every model's instance store and issues handles.
/// Each frame it decides which instance buffers to upload and what to draw;
/// performing those uploads and draws is its caller's business.
pub struct Renderer {
    models: Vec<ModelEntry>,
}

impl Renderer {
    /// The registered models in id order.
    pub closed spec fn entries(self) -> Seq<ModelEntry> {
        self.models@
    }

    /// How many models are registered.
    pub open spec fn model_count(self) -> nat {
        self.entries().len()
    }

    pub open spec fn wf(self) -> bool {
        &&& self.model_count() <= MAX_MODELS
        &&& forall|m: int|
            #![trigger self.entries()[m]]
            0 <= m < self.model_count() ==> self.entries()[m].wf()
    }

    /// A renderer with no models.
    pub fn new() -> (r: Renderer)
        ensures
            r.wf(),
            r.model_count() == 0,
    {
        Renderer { models: Vec::new() }
    }

    /// How many models are registered.
    pub fn num_models(&self) -> (n: usize)
        ensures
            n == self.model_count(),
    {
        self.models.len()
    }

    /// Registers a mesh: an empty instance store, a fresh instance buffer of
    /// the initial capacity, and the mesh's index count for later draws. The
    /// new model id is sequential: one past the previous registration's.
    pub fn add_model(&mut self, model: Model) -> (id: u16)
        requires
            old(self).wf(),
            old(self).model_count() < MAX_MODELS,
        ensures
            final(self).wf(),
            id as int == old(self).model_count(),
            final(self).model_count() == old(self).model_count() + 1,
            forall|m: int|
                #![trigger final(self).entries()[m]]
                0 <= m < old(self).model_count() ==> final(self).entries()[m] == old(self).entries()[m],
            final(self).entries()[id as int].store().vals() == Seq::<ModelInstance>::empty(),
            final(self).entries()[id as int].store().table() == crate::slot_table::empty_contents(),
            final(self).entries()[id as int].dirty() == false,
            final(self).entries()[id as int].index_count() == model.indices@.len(),
            final(self).entries()[id as int].buffer_bytes() == INITIAL_INSTANCE_BUFFER_BYTES,
    {
        let id = self.models.len() as u16;
        let entry = ModelEntry {
            store: DenseStore::new(),
            dirty: false,
            buffer_bytes: INITIAL_INSTANCE_BUFFER_BYTES,
            index_count: model.indices.len(),
        };
        self.models.push(entry);
        id
    }

    /// Inserts `instance` into the model's store, marks the model dirty, and
    /// returns a handle to the new instance. The model's instance buffer is
    /// grown, with headroom, whenever the packed instances would outgrow it.
    ///
    /// `ModelIndexOutOfRange` exactly when `model` was never returned by
    /// `add_model`; `CapacityExceeded` exactly when the model is full; both
    /// leave the renderer unchanged.
    pub fn add_instance(&mut self, model: u16, instance: ModelInstance) -> (r: Result<
        InstanceHandle,
        Error,
    >)
        requires
            old(self).wf(),
        ensures
            final(self).wf(),
            final(self).model_count() == old(self).model_count(),
            model as int >= old(self).model_count() ==> {
                &&& r is Err
                &&& r->Err_0 == Error::ModelIndexOutOfRange
                &&& final(self).entries() == old(self).entries()
            },
            (model as int) < old(self).model_count() && old(self).entries()[model as int].store().vals().len()
                >= MAX_INSTANCES ==> {
                &&& r is Err
                &&& r->Err_0 == Error::CapacityExceeded
                &&& final(self).entries() == old(self).entries()
            },
            (model as int) < old(self).model_count() && old(self).entries()[model as int].store().vals().len()
                < MAX_INSTANCES ==> ({
                let pre = old(self).entries()[model as int].store();
                let post = final(self).entries()[model as int].store();
                let key = r->Ok_0.key();
                &&& r is Ok
                &&& r->Ok_0.model_index() == model as int
                &&& !pre.live(key)
                &&& post.vals() == pre.vals().push(instance)
                &&& post.keys() == pre.keys().push(key)
                &&& post.table() == pre.table().insert(key, pre.vals().len() as usize)
                &&& post.live(key)
                &&& post.table()[key] == pre.vals().len()
                &&& final(self).entries()[model as int].dirty() == true
                &&& final(self).entries()[model as int].index_count() == old(self).entries()[model as int].index_count()
                &&& final(self).entries()[model as int].buffer_bytes() >= INSTANCE_BYTES * post.vals().len()
                &&& INSTANCE_BYTES * post.vals().len() <= old(self).entries()[model as int].buffer_bytes()
                    ==> final(self).entries()[model as int].buffer_bytes() == old(self).entries()[model as int].buffer_bytes()
                &&& forall|m: int|
                    #![trigger final(self).entries()[m]]
                    0 <= m < old(self).model_count() && m != model as int ==> final(self).entries()[m] == old(self).entries()[m]
            }),
    {
        let m = model as usize;
        if m >= self.models.len() {
            return Err(Error::ModelIndexOutOfRange);
        }
        proof {
            assert(old(self).entries()[m as int].wf());
        }
        let entry = &mut self.models[m];
        let len = entry.store.len();
        if len >= MAX_INSTANCES {
            proof {
                assert(final(self).entries() =~= old(self).entries());
            }
            return Err(Error::CapacityExceeded);
        }
        let key = entry.store.insert(instance);
        entry.dirty = true;
        let needed = INSTANCE_BYTES * (len + 1);
        if entry.buffer_bytes < needed {
            entry.buffer_bytes = needed * 2;
        }
        Ok(InstanceHandle { model, index: key as u16 })
    }

    /// Removes the instance `handle` points at, by swap-remove in the
    /// model's store, and marks the model dirty.
    ///
    /// `ModelIndexOutOfRange` exactly when the handle's model id is out of
    /// range; `InvalidKey` exactly when the handle's key is not live —
    /// including every repeated removal of the same handle; both leave the
    /// renderer unchanged.
    pub fn remove_instance(&mut self, handle: InstanceHandle) -> (r: Result<(), Error>)
        requires
            old(self).wf(),
        ensures
            final(self).wf(),
            final(self).model_count() == old(self).model_count(),
            handle.model_index() >= old(self).model_count() ==> {
                &&& r is Err
                &&& r->Err_0 == Error::ModelIndexOutOfRange
                &&& final(self).entries() == old(self).entries()
            },
            handle.model_index() < old(self).model_count() && !old(self).entries()[handle.model_index()].store().live(
                handle.key(),
            ) ==> {
                &&& r is Err
                &&& r->Err_0 == Error::InvalidKey
                &&& final(self).entries() == old(self).entries()
            },
            handle.model_index() < old(self).model_count() && old(self).entries()[handle.model_index()].store().live(
                handle.key(),
            ) ==> ({
                let pre = old(self).entries()[handle.model_index()].store();
                let post = final(self).entries()[handle.model_index()].store();
                let key = handle.key();
                &&& r is Ok
                &&& post.vals().len() == pre.vals().len() - 1
                &&& post.vals() == pre.vals().update(
                    pre.table()[key] as int,
                    pre.vals().last(),
                ).drop_last()
                &&& post.keys() == pre.keys().update(
                    pre.table()[key] as int,
                    pre.keys().last(),
                ).drop_last()
                &&& post.table() == pre.table().insert(pre.keys().last(), pre.table()[key]).remove(
                    key,
                )
                &&& !post.live(key)
                &&& forall|k: usize|
                    #![trigger pre.table().dom().contains(k)]
                    k != key && pre.live(k) ==> post.live(k) && post.value_of(k) == pre.value_of(k)
                &&& final(self).entries()[handle.model_index()].dirty() == true
                &&& final(self).entries()[handle.model_index()].index_count() == old(self).entries()[handle.model_index()].index_count()
                &&& final(self).entries()[handle.model_index()].buffer_bytes() == old(self).entries()[handle.model_index()].buffer_bytes()
                &&& forall|m: int|
                    #![trigger final(self).entries()[m]]
                    0 <= m < old(self).model_count() && m != handle.model_index() ==> final(self).entries()[m] == old(self).entries()[m]
            }),
    {
        let m = handle.model as usize;
        if m >= self.models.len() {
            return Err(Error::ModelIndexOutOfRange);
        }
        proof {
            assert(old(self).entries()[m as int].wf());
        }
        let entry = &mut self.models[m];
        match entry.store.remove(handle.index as usize) {
            Ok(_) => {
                entry.dirty = true;
                Ok(())
            },
            Err(e) => {
                proof {
                    assert(final(self).entries() =~= old(self).entries());
                }
                Err(e)
            },
        }
    }

    /// Borrows the instance `handle` points at, with the same error cases as
    /// `remove_instance` and no change to anything.
    pub fn instance(&self, handle: InstanceHandle) -> (r: Result<&ModelInstance, Error>)
        requires
            self.wf(),
        ensures
            handle.model_index() >= self.model_count() ==> r is Err && r->Err_0
                == Error::ModelIndexOutOfRange,
            handle.model_index() < self.model_count() && !self.entries()[handle.model_index()].store().live(
                handle.key(),
            ) ==> r is Err && r->Err_0 == Error::InvalidKey,
            handle.model_index() < self.model_count() && self.entries()[handle.model_index()].store().live(
                handle.key(),
            ) ==> r is Ok && *r->Ok_0 == self.entries()[handle.model_index()].store().value_of(
                handle.key(),
            ),
    {
        let m = handle.model as usize;
        if m >= self.models.len() {
            return Err(Error::ModelIndexOutOfRange);
        }
        proof {
            assert(self.entries()[m as int].wf());
        }
        let entry = &self.models[m];
        entry.store.get(handle.index as usize)
    }

    /// How many instances the model currently holds: exactly the count its
    /// draw command will submit.
    pub fn instance_count(&self, model: u16) -> (n: usize)
        requires
            self.wf(),
            (model as int) < self.model_count(),
        ensures
            n == self.entries()[model as int].store().vals().len(),
    {
        let entry = &self.models[model as usize];
        entry.store.len()
    }

    /// Whether the model's instance buffer is stale and will be uploaded by
    /// the next `sync_uploads`.
    pub fn is_dirty(&self, model: u16) -> (d: bool)
        requires
            (model as int) < self.model_count(),
        ensures
            d == self.entries()[model as int].dirty(),
    {
        self.models[model as usize].dirty
    }

    /// The per-frame sync pass: for exactly the models whose dirty flag is
    /// set, in ascending model order, emits the full packed image of the
    /// dense instance array for one bulk upload, and clears the flag. The
    /// stores themselves are untouched.
    pub fn sync_uploads(&mut self) -> (cmds: Vec<UploadCmd>)
        requires
            old(self).wf(),
        ensures
            final(self).wf(),
            final(self).model_count() == old(self).model_count(),
            forall|m: int|
                #![trigger final(self).entries()[m]]
                0 <= m < old(self).model_count() ==> final(self).entries()[m].store() == old(self).entries()[m].store() && final(self).entries()[m].buffer_bytes() == old(self).entries()[m].buffer_bytes() && final(self).entries()[m].index_count() == old(self).entries()[m].index_count() && final(self).entries()[m].dirty() == false,
            forall|j: int|
                #![trigger cmds@[j]]
                0 <= j < cmds@.len() ==> (cmds@[j].model as int) < old(self).model_count()
                    && old(self).entries()[cmds@[j].model as int].dirty() && cmds@[j].buffer_bytes
                    == old(self).entries()[cmds@[j].model as int].buffer_bytes() && cmds@[j].data@
                    == instances_le_bytes(old(self).entries()[cmds@[j].model as int].store().vals()),
            forall|j1: int, j2: int|
                #![trigger cmds@[j1], cmds@[j2]]
                0 <= j1 < j2 < cmds@.len() ==> cmds@[j1].model < cmds@[j2].model,
            forall|m: int|
                #![trigger old(self).entries()[m]]
                0 <= m < old(self).model_count() && old(self).entries()[m].dirty() ==> exists|
                    j: int,
                |
                    0 <= j < cmds@.len() && (#[trigger] cmds@[j]).model as int == m,
    {
        let mut cmds: Vec<UploadCmd> = Vec::new();
        let n = self.models.len();
        let mut i: usize = 0;
        while i < n
            invariant
                i <= n,
                n == self.models@.len(),
                self.models@.len() == old(self).models@.len(),
                old(self).wf(),
                forall|m: int|
                    #![trigger self.models@[m]]
                    i <= m < n ==> self.models@[m] == old(self).models@[m],
                forall|m: int|
                    #![trigger self.models@[m]]
                    0 <= m < i ==> self.models@[m].store() == old(self).models@[m].store()
                        && self.models@[m].buffer_bytes() == old(self).models@[m].buffer_bytes()
                        && self.models@[m].index_count() == old(self).models@[m].index_count()
                        && self.models@[m].dirty() == false,
                forall|j: int|
                    #![trigger cmds@[j]]
                    0 <= j < cmds@.len() ==> (cmds@[j].model as int) < i && old(self).models@[cmds@[j].model as int].dirty()
                        && cmds@[j].buffer_bytes == old(self).models@[cmds@[j].model as int].buffer_bytes()
                        && cmds@[j].data@ == instances_le_bytes(
                        old(self).models@[cmds@[j].model as int].store().vals(),
                    ),
                forall|j1: int, j2: int|
                    #![trigger cmds@[j1], cmds@[j2]]
                    0 <= j1 < j2 < cmds@.len() ==> cmds@[j1].model < cmds@[j2].model,
                forall|m: int|
                    #![trigger old(self).models@[m]]
                    0 <= m < i && old(self).models@[m].dirty() ==> exists|j: int|
                        0 <= j < cmds@.len() && (#[trigger] cmds@[j]).model as int == m,
            decreases n - i,
        {
            proof {
                assert(old(self).entries()[i as int].wf());
            }
            let entry = &mut self.models[i];
            if entry.dirty {
                entry.dirty = false;
                let data = pack_instances(entry.store.values());
                let cmd = UploadCmd { model: i as u16, buffer_bytes: entry.buffer_bytes, data };
                let ghost cmds0 = cmds@;
                cmds.push(cmd);
                proof {
                    assert(cmds@[cmds@.len() - 1].model as int == i as int);
                    assert forall|m2: int| 0 <= m2 < i + 1 && old(self).models@[m2].dirty()
                        implies exists|j: int|
                            0 <= j < cmds@.len() && (#[trigger] cmds@[j]).model as int == m2 by {
                        if m2 < i {
                            let j0 = choose|j: int|
                                0 <= j < cmds0.len() && (#[trigger] cmds0[j]).model as int == m2;
                            assert(cmds@[j0] == cmds0[j0]);
                        } else {
                            assert(cmds@[cmds@.len() - 1].model as int == m2);
                        }
                    }
                }
            }
            i = i + 1;
        }
        cmds
    }

    /// The per-frame draw list: one instanced draw per model, in id order,
    /// submitting the model's current dense instance count.
    pub fn draw_commands(&self) -> (cmds: Vec<DrawCmd>)
        requires
            self.wf(),
        ensures
            cmds@.len() == self.model_count(),
            forall|m: int|
                #![trigger cmds@[m]]
                0 <= m < self.model_count() ==> cmds@[m].model as int == m && cmds@[m].index_count
                    == self.entries()[m].index_count() && cmds@[m].instance_count
                    == self.entries()[m].store().vals().len(),
    {
        let mut cmds: Vec<DrawCmd> = Vec::new();
        let n = self.models.len();
        let mut i: usize = 0;
        while i < n
            invariant
                i <= n,
                n == self.models@.len(),
                self.wf(),
                cmds@.len() == i,
                forall|m: int|
                    #![trigger cmds@[m]]
                    0 <= m < i ==> cmds@[m].model as int == m && cmds@[m].index_count
                        == self.models@[m].index_count() && cmds@[m].instance_count
                        == self.models@[m].store().vals().len(),
            decreases n - i,
        {
            let entry = &self.models[i];
            cmds.push(
                DrawCmd {
                    model: i as u16,
                    index_count: entry.index_count,
                    instance_count: entry.store.len(),
                },
            );
            i = i + 1;
        }
        cmds
    }
}

/// One mutation in a model's per-frame history: an insertion, or a removal
/// that succeeded.
#[derive(Clone, Copy, Debug, PartialEq, Eq, Structural)]
pub enum StoreOp {
    Insert,
    Remove,
}

/// The dense count after a history of mutations, starting from `start`:
/// `insert` grows the block by one and a successful `remove` shrinks it by
/// one, as their contracts ensure.
pub open spec fn len_after(start: int, ops: Seq<StoreOp>) -> int
    decreases ops.len(),
{
    if ops.len() == 0 {
        start
    } else {
        len_after(start, ops.drop_last()) + (if ops.last() is Insert {
            1int
        } else {
            -1int
        })
    }
}

/// How many of the mutations are insertions.
pub open spec fn count_inserts(ops: Seq<StoreOp>) -> int
    decreases ops.len(),
{
    if ops.len() == 0 {
        0
    } else {
        count_inserts(ops.drop_last()) + (if ops.last() is Insert {
            1int
        } else {
            0int
        })
    }
}

/// How many of the mutations are successful removals.
pub open spec fn count_removes(ops: Seq<StoreOp>) -> int
    decreases ops.len(),
{
    if ops.len() == 0 {
        0
    } else {
        count_removes(ops.drop_last()) + (if ops.last() is Remove {
            1int
        } else {
            0int
        })
    }
}

/// After any interleaving of insertions and successful removals on one
/// model — starting from an empty store, `n` insertions and `m` removals —
/// the dense count, which is exactly what that model's draw command
/// submits, is `n - m`.
pub proof fn lemma_draw_count(start: int, ops: Seq<StoreOp>)
    ensures
        len_after(start, ops) == start + count_inserts(ops) - count_removes(ops),
    decreases ops.len(),
{
    if ops.len() > 0 {
        lemma_draw_count(start, ops.drop_last());
    }
}

} // verus!

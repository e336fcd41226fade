//! Staging one bound texture, whatever it is backed by.
//!
//! A [`TextureStage`] waits for one thing at a time: an object, a mapping, a flush,
//! a read. The caller gets what its phase names and hands it in; the stage decides
//! what comes next, until the texture is staged or refused.

use vstd::prelude::*;
use crate::compute_exec::buffers::Lookup;
use crate::compute_exec::linear_cache::{LinearCache, is_forgotten, storable};
use crate::compute_exec::linear_texture::{
    LinearDescriptor, LinearPlan, LinearSource, linear_plan, linear_source, linear_staged,
    plan_linear_texture, read_view, source_of, stage_linear_texture,
};
use crate::compute_exec::status::ComputeStatus;
use crate::compute_exec::surface_texture::{
    Backing, Reached, StageObject, SurfacePlan, SurfaceViewRecord, backing_of, choose_backing,
    ensures_surface, plan_surface_texture, reads_guest, stage_surface_texture, surface_needs_read,
    surface_plan, surface_staged, surface_to_ensure,
};
use crate::compute_exec::texture::{
    BaseTexture, BoundObject, EngineResidents, StagedTexture, StagedView, TexturePath, heap_staged,
    TextureWriteback, resolve_texture_path, stage_heap_texture, stages_as, texture_path,
};
use crate::compute_exec::writeback::{is_stored, stores_copy};
use crate::contract::texel_bytes;
use crate::mapping::{MappingEntry, MappingTable, MappingView};
use crate::residency::{ComputeStorageResidencyKey, ResidencyMap};

verus! {

/// What the staging of a texture waits for.
#[derive(Debug, PartialEq, Eq)]
pub enum StagePhase {
    /// The object that the bind refers to.
    Object,
    /// The object of the texture behind it.
    Base(BaseTexture),
    /// The surface that the task's list gives for it, once `ensure` is mapped.
    Backing { base: BaseTexture, object: StageObject, ensure: Option<u32> },
    /// The mapping, made ready for scanout.
    Mapping { base: BaseTexture, mapping_id: u32, reached: Reached },
    /// The texels of a surface's window.
    SurfaceRead(SurfacePlan),
    /// The linear texture's descriptor.
    Linear(BaseTexture),
    /// The flush of the engine's resident into the host's copy.
    LinearFlush { plan: LinearPlan, source: LinearSource },
    /// The texels of a linear window.
    LinearRead(LinearPlan),
    /// Nothing.
    Done(Result<StagedTexture, ComputeStatus>),
}

/// A texture being staged.
pub struct TextureStage {
    pub task_id: u32,
    pub texture_ref: u32,
    pub binding: u32,
    pub is_storage: bool,
    pub phase: StagePhase,
}

/// The plan's size is that of its geometry.
pub open spec fn plan_sized(plan: LinearPlan) -> bool {
    &&& texel_bytes(plan.format) == Some(plan.bpp)
    &&& plan.need == plan.layout.width * plan.layout.height * plan.bpp
}

/// The plan's size is that of its geometry.
pub open spec fn surface_sized(plan: SurfacePlan) -> bool {
    &&& texel_bytes(plan.format) == Some(plan.bpp)
    &&& plan.need == plan.width * plan.height * plan.bpp
}

/// The bytes are the tight rows of the texture's geometry.
pub open spec fn is_tight(texture: StagedView) -> bool {
    &&& texel_bytes(texture.pixel_format) is Some
    &&& texture.bytes.len() == texture.width * texture.height * texel_bytes(
        texture.pixel_format,
    )->0
}

/// The stage is over, with the described result.
pub open spec fn done_as(phase: StagePhase, described: Result<StagedView, ComputeStatus>) -> bool {
    match phase {
        StagePhase::Done(result) => stages_as(result, described),
        _ => false,
    }
}

/// The host's copy of the planned window: its tight rows.
pub open spec fn cached_rows(cache: LinearCache, task_id: u32, plan: LinearPlan) -> Option<
    Seq<u8>,
> {
    match cache.served(task_id, plan.texture_ref, plan.window_spec()) {
        Some(bytes) => Some(bytes.take(plan.need as int)),
        None => None,
    }
}

impl TextureStage {
    /// Everything but the phase is as before.
    pub open spec fn same_bind(self, other: TextureStage) -> bool {
        &&& self.task_id == other.task_id
        &&& self.texture_ref == other.texture_ref
        &&& self.binding == other.binding
        &&& self.is_storage == other.is_storage
    }

    /// What holds of a stage between its steps. A texture is staged as the bind
    /// asked, in tight rows.
    pub open spec fn consistent(self) -> bool {
        match self.phase {
            StagePhase::SurfaceRead(plan) => surface_sized(plan),
            StagePhase::Done(Ok(texture)) => texture.binding == self.binding
                && texture.is_storage == self.is_storage && is_tight(texture@),
            StagePhase::LinearFlush { plan, source } => plan_sized(plan),
            StagePhase::LinearRead(plan) => plan_sized(plan),
            _ => true,
        }
    }

    /// The staged texture from the host's copy, or the read that is needed instead.
    pub open spec fn cached_or_read(
        self,
        cache: LinearCache,
        plan: LinearPlan,
        source: LinearSource,
        after: StagePhase,
    ) -> bool {
        match cached_rows(cache, self.task_id, plan) {
            Some(rows) => done_as(
                after,
                linear_staged(
                    plan,
                    self.binding,
                    self.is_storage,
                    source,
                    Ok(rows),
                    cache.generation(self.task_id, plan.texture_ref),
                ),
            ),
            None => after == StagePhase::LinearRead(plan),
        }
    }
}

/// Begin to stage a bound texture.
pub fn stage_texture_raw(task_id: u32, texture_ref: u32, binding: u32, is_storage: bool) -> (stage:
    TextureStage)
    ensures
        stage == (TextureStage {
            task_id,
            texture_ref,
            binding,
            is_storage,
            phase: StagePhase::Object,
        }),
        stage.consistent(),
{
    TextureStage { task_id, texture_ref, binding, is_storage, phase: StagePhase::Object }
}

proof fn lemma_plan_sized(
    task_id: u32,
    base: BaseTexture,
    lookup: Lookup<LinearDescriptor>,
    is_storage: bool,
)
    ensures
        match linear_plan(task_id, base, lookup, is_storage) {
            Ok(plan) => plan_sized(plan),
            Err(_) => true,
        },
{
    match linear_plan(task_id, base, lookup, is_storage) {
        Ok(plan) => {
            let w = plan.layout.width;
            let h = plan.layout.height;
            let bpp = plan.bpp;
            assert(w * bpp * h == w * h * bpp) by (nonlinear_arith);
        },
        Err(_) => {},
    }
}

proof fn lemma_surface_sized(
    m: Option<MappingView>,
    mapping_id: u32,
    reached: Reached,
    described: Option<SurfaceViewRecord>,
    base: BaseTexture,
    is_storage: bool,
    page_shift: u32,
    mirror: Seq<(ComputeStorageResidencyKey, u32)>,
    residents: EngineResidents,
)
    ensures
        match surface_plan(
            m,
            mapping_id,
            reached,
            described,
            base,
            is_storage,
            page_shift,
            mirror,
            residents,
        ) {
            Ok(plan) => surface_sized(plan),
            Err(_) => true,
        },
{
    match surface_plan(
        m,
        mapping_id,
        reached,
        described,
        base,
        is_storage,
        page_shift,
        mirror,
        residents,
    ) {
        Ok(plan) => {
            let w = plan.width;
            let h = plan.height;
            let bpp = plan.bpp;
            assert(w * bpp * h == w * h * bpp) by (nonlinear_arith);
        },
        Err(_) => {},
    }
}

impl TextureStage {
    /// The bound object was looked up. A heap texture is staged at once: it has no
    /// guest memory.
    pub fn object_found(
        &mut self,
        object: &BoundObject,
        mirror: &ResidencyMap,
        residents: &EngineResidents,
    )
        requires
            old(self).phase == StagePhase::Object,
            mirror.wf(),
        ensures
            final(self).same_bind(*old(self)),
            final(self).consistent(),
            match texture_path(old(self).texture_ref, *object) {
                Err(status) => done_as(final(self).phase, Err(status)),
                Ok(TexturePath::Heap(descriptor)) => done_as(
                    final(self).phase,
                    heap_staged(
                        old(self).task_id,
                        old(self).texture_ref,
                        old(self).binding,
                        old(self).is_storage,
                        descriptor,
                        mirror@,
                        *residents,
                    ),
                ),
                Ok(TexturePath::Base(base)) => final(self).phase == StagePhase::Base(base),
            },
    {
        self.phase = match resolve_texture_path(self.texture_ref, object) {
            Err(status) => StagePhase::Done(Err(status)),
            Ok(TexturePath::Heap(descriptor)) => StagePhase::Done(
                stage_heap_texture(
                    self.task_id,
                    self.texture_ref,
                    self.binding,
                    self.is_storage,
                    &descriptor,
                    mirror,
                    residents,
                ),
            ),
            Ok(TexturePath::Base(base)) => StagePhase::Base(base),
        };
    }

    /// The object of the texture behind the bind was looked up.
    pub fn base_found(&mut self, object: StageObject)
        requires
            old(self).phase is Base,
        ensures
            final(self).same_bind(*old(self)),
            final(self).consistent(),
            final(self).phase == (StagePhase::Backing {
                base: old(self).phase->Base_0,
                object,
                ensure: ensures_surface(old(self).phase->Base_0.stage_ref, object),
            }),
    {
        let base = match self.phase {
            StagePhase::Base(base) => base,
            _ => {
                return ;
            },
        };
        let ensure = surface_to_ensure(base.stage_ref, &object);
        self.phase = StagePhase::Backing { base, object, ensure };
    }

    /// The surface was ensured, where one had to be, and the task's list was asked.
    pub fn backing_found(&mut self, listed: Option<u32>, mappings: &MappingTable)
        requires
            old(self).phase is Backing,
            mappings.wf(),
        ensures
            final(self).same_bind(*old(self)),
            final(self).consistent(),
            match backing_of(
                old(self).phase->Backing_base.stage_ref,
                old(self).phase->Backing_object,
                listed,
                mappings@,
            ) {
                Err(status) => done_as(final(self).phase, Err(status)),
                Ok(Backing::Linear) => final(self).phase == StagePhase::Linear(
                    old(self).phase->Backing_base,
                ),
                Ok(Backing::Surface { mapping_id, reached }) => final(self).phase == (
                StagePhase::Mapping { base: old(self).phase->Backing_base, mapping_id, reached }),
            },
    {
        let (base, object) = match self.phase {
            StagePhase::Backing { base, object, .. } => (base, object),
            _ => {
                return ;
            },
        };
        self.phase = match choose_backing(base.stage_ref, &object, listed, mappings) {
            Err(status) => StagePhase::Done(Err(status)),
            Ok(Backing::Linear) => StagePhase::Linear(base),
            Ok(Backing::Surface { mapping_id, reached }) => StagePhase::Mapping {
                base,
                mapping_id,
                reached,
            },
        };
    }

    /// The mapping was made ready. What the engine holds needs no read.
    pub fn mapping_ready(
        &mut self,
        m: Option<&MappingEntry>,
        described: Option<SurfaceViewRecord>,
        page_shift: u32,
        mirror: &ResidencyMap,
        residents: &EngineResidents,
    )
        requires
            old(self).phase is Mapping,
            page_shift < 64,
            mirror.wf(),
        ensures
            final(self).same_bind(*old(self)),
            final(self).consistent(),
            match surface_plan(
                match m {
                    Some(e) => Some(e@),
                    None => None,
                },
                old(self).phase->Mapping_mapping_id,
                old(self).phase->Mapping_reached,
                described,
                old(self).phase->Mapping_base,
                old(self).is_storage,
                page_shift,
                mirror@,
                *residents,
            ) {
                Err(status) => done_as(final(self).phase, Err(status)),
                Ok(plan) => if reads_guest(plan) {
                    final(self).phase == StagePhase::SurfaceRead(plan)
                } else {
                    done_as(
                        final(self).phase,
                        surface_staged(plan, old(self).binding, old(self).is_storage, None),
                    )
                },
            },
    {
        let (base, mapping_id, reached) = match self.phase {
            StagePhase::Mapping { base, mapping_id, reached } => (base, mapping_id, reached),
            _ => {
                return ;
            },
        };
        proof {
            lemma_surface_sized(
                match m {
                    Some(e) => Some(e@),
                    None => None,
                },
                mapping_id,
                reached,
                described,
                base,
                self.is_storage,
                page_shift,
                mirror@,
                *residents,
            );
        }
        self.phase = match plan_surface_texture(
            m,
            mapping_id,
            &reached,
            described,
            &base,
            self.is_storage,
            page_shift,
            mirror,
            residents,
        ) {
            Err(status) => StagePhase::Done(Err(status)),
            Ok(plan) => if surface_needs_read(&plan) {
                StagePhase::SurfaceRead(plan)
            } else {
                StagePhase::Done(
                    stage_surface_texture(&plan, self.binding, self.is_storage, None),
                )
            },
        };
    }

    /// The surface's window was read whole, or could not be.
    pub fn surface_read(&mut self, read: Option<Vec<u8>>)
        requires
            old(self).consistent(),
            old(self).phase is SurfaceRead,
            read is Some ==> read->0.len() == old(self).phase->SurfaceRead_0.need,
        ensures
            final(self).same_bind(*old(self)),
            final(self).consistent(),
            done_as(
                final(self).phase,
                surface_staged(
                    old(self).phase->SurfaceRead_0,
                    old(self).binding,
                    old(self).is_storage,
                    match read {
                        Some(bytes) => Some(bytes@),
                        None => None,
                    },
                ),
            ),
    {
        let plan = match self.phase {
            StagePhase::SurfaceRead(plan) => plan,
            _ => {
                return ;
            },
        };
        self.phase = StagePhase::Done(
            stage_surface_texture(&plan, self.binding, self.is_storage, read),
        );
    }

    /// The linear texture's descriptor was looked up. The engine's resident is used
    /// where it serves; else the host's copy; else the guest is read. A resident
    /// that is authoritative but does not serve is flushed first: what lies beneath
    /// it is older.
    pub fn linear_found(
        &mut self,
        lookup: &Lookup<LinearDescriptor>,
        cache: &LinearCache,
        residents: &EngineResidents,
    )
        requires
            old(self).phase is Linear,
        ensures
            final(self).same_bind(*old(self)),
            final(self).consistent(),
            match linear_plan(
                old(self).task_id,
                old(self).phase->Linear_0,
                *lookup,
                old(self).is_storage,
            ) {
                Err(status) => done_as(final(self).phase, Err(status)),
                Ok(plan) => {
                    let source = source_of(
                        plan,
                        old(self).is_storage,
                        cache.resident(old(self).task_id, plan.texture_ref, plan.window_spec()),
                        *residents,
                    );
                    match source {
                        LinearSource::Flush(_, _) => final(self).phase == (
                        StagePhase::LinearFlush { plan, source }),
                        LinearSource::Bytes => old(self).cached_or_read(
                            *cache,
                            plan,
                            source,
                            final(self).phase,
                        ),
                        _ => done_as(
                            final(self).phase,
                            linear_staged(
                                plan,
                                old(self).binding,
                                old(self).is_storage,
                                source,
                                Ok(Seq::empty()),
                                cache.generation(old(self).task_id, plan.texture_ref),
                            ),
                        ),
                    }
                },
            },
    {
        let base = match self.phase {
            StagePhase::Linear(base) => base,
            _ => {
                return ;
            },
        };
        proof {
            lemma_plan_sized(self.task_id, base, *lookup, self.is_storage);
        }
        let plan = match plan_linear_texture(self.task_id, &base, lookup, self.is_storage) {
            Err(status) => {
                self.phase = StagePhase::Done(Err(status));
                return ;
            },
            Ok(plan) => plan,
        };
        let resident = cache.linear_texture_resident_gen(
            self.task_id,
            plan.texture_ref,
            &plan.window(),
        );
        let source = linear_source(&plan, self.is_storage, resident, residents);
        match source {
            LinearSource::Flush(_, _) => {
                self.phase = StagePhase::LinearFlush { plan, source };
            },
            LinearSource::Bytes => self.use_cache(&plan, &source, cache),
            _ => {
                let none: Vec<u8> = Vec::new();
                assert(none@ =~= Seq::<u8>::empty());
                let generation: u32 = cache.host_generation(self.task_id, plan.texture_ref);
                self.phase = StagePhase::Done(
                    stage_linear_texture(
                        &plan,
                        self.binding,
                        self.is_storage,
                        &source,
                        Ok(none),
                        generation,
                    ),
                );
            },
        }
    }

    fn use_cache(&mut self, plan: &LinearPlan, source: &LinearSource, cache: &LinearCache)
        requires
            plan_sized(*plan),
        ensures
            final(self).same_bind(*old(self)),
            final(self).consistent(),
            old(self).cached_or_read(*cache, *plan, *source, final(self).phase),
    {
        let window = plan.window();
        self.phase = match cache.get_linear_texture(self.task_id, plan.texture_ref, &window) {
            Some(bytes) => {
                assert(storable(window, bytes@));
                let rows = vstd::slice::slice_to_vec(
                    vstd::slice::slice_subrange(bytes.as_slice(), 0, plan.need),
                );
                assert(rows@ =~= bytes@.take(plan.need as int));
                let generation: u32 = cache.host_generation(self.task_id, plan.texture_ref);
                StagePhase::Done(
                    stage_linear_texture(
                        plan,
                        self.binding,
                        self.is_storage,
                        source,
                        Ok(rows),
                        generation,
                    ),
                )
            },
            None => StagePhase::LinearRead(*plan),
        };
    }

    /// The resident was flushed into the host's copy, or is lost. A lost one has no
    /// authority any longer: an older copy is used, or the guest is read.
    pub fn linear_flushed(&mut self, cache: &mut LinearCache)
        requires
            old(self).consistent(),
            old(self).phase is LinearFlush,
        ensures
            final(self).same_bind(*old(self)),
            final(self).consistent(),
            ({
                let plan = old(self).phase->LinearFlush_plan;
                let source = old(self).phase->LinearFlush_source;
                &&& old(self).cached_or_read(*final(cache), plan, source, final(self).phase)
                &&& cached_rows(*old(cache), old(self).task_id, plan) is Some ==> *final(cache)
                    == *old(cache)
                &&& cached_rows(*old(cache), old(self).task_id, plan) is None ==> is_forgotten(
                    *old(cache),
                    old(self).task_id,
                    plan.texture_ref,
                    *final(cache),
                )
                &&& final(cache).colors == old(cache).colors
                &&& forall|t: u32, r: u32|
                    t != old(self).task_id || r != plan.texture_ref ==> #[trigger] final(cache).entry(t, r) == old(cache).entry(t, r)
            }),
    {
        let (plan, source) = match self.phase {
            StagePhase::LinearFlush { plan, source } => (plan, source),
            _ => {
                return ;
            },
        };
        let window = plan.window();
        if cache.get_linear_texture(self.task_id, plan.texture_ref, &window).is_none() {
            cache.forget_resident(self.task_id, plan.texture_ref);
        }
        self.use_cache(&plan, &source, cache);
    }

    /// The linear window was read whole, or could not be.
    pub fn linear_read(&mut self, read: Result<Vec<u8>, ComputeStatus>, cache: &LinearCache)
        requires
            old(self).consistent(),
            old(self).phase is LinearRead,
            read is Ok ==> read->Ok_0.len() == old(self).phase->LinearRead_0.need,
        ensures
            final(self).same_bind(*old(self)),
            final(self).consistent(),
            done_as(
                final(self).phase,
                linear_staged(
                    old(self).phase->LinearRead_0,
                    old(self).binding,
                    old(self).is_storage,
                    LinearSource::Bytes,
                    read_view(read),
                    cache.generation(old(self).task_id, old(self).phase->LinearRead_0.texture_ref),
                ),
            ),
    {
        let plan = match self.phase {
            StagePhase::LinearRead(plan) => plan,
            _ => {
                return ;
            },
        };
        let generation: u32 = cache.host_generation(self.task_id, plan.texture_ref);
        self.phase = StagePhase::Done(
            stage_linear_texture(
                &plan,
                self.binding,
                self.is_storage,
                &LinearSource::Bytes,
                read,
                generation,
            ),
        );
    }

    /// The outcome, once there is one.
    pub fn finish(self) -> (staged: Option<Result<StagedTexture, ComputeStatus>>)
        ensures
            staged == match self.phase {
                StagePhase::Done(result) => Some(result),
                _ => None,
            },
    {
        match self.phase {
            StagePhase::Done(result) => Some(result),
            _ => None,
        }
    }
}

/// A linear output is written to the texture that it was planned from.
pub open spec fn writes_plan(texture: StagedView, plan: LinearPlan) -> bool {
    texture.writeback == (TextureWriteback::Linear {
        texture_ref: plan.texture_ref,
        gva: plan.layout.gva,
        pixel_format: plan.format,
        row_stride: plan.layout.row_stride,
        width: plan.layout.width,
        height: plan.layout.height,
        bpp: plan.bpp,
    })
}

/// What a dispatch writes to a linear texture is what the next one stages of it,
/// whether or not the guest has the memory mapped.
pub proof fn law_linear_output_is_staged_again(
    before: LinearCache,
    after: LinearCache,
    task_id: u32,
    plan: LinearPlan,
    texture: StagedView,
    is_storage: bool,
    residents: EngineResidents,
)
    requires
        plan_sized(plan),
        plan.layout.width * plan.bpp <= plan.layout.row_stride,
        writes_plan(texture, plan),
        texture.bytes.len() == plan.need,
        is_stored(before, task_id, texture, after),
    ensures
        source_of(
            plan,
            is_storage,
            after.resident(task_id, plan.texture_ref, plan.window_spec()),
            residents,
        ) == LinearSource::Bytes,
        cached_rows(after, task_id, plan) == Some(texture.bytes),
{
    let w = plan.layout.width;
    let h = plan.layout.height;
    let bpp = plan.bpp;
    assert(w * bpp * h == w * h * bpp) by (nonlinear_arith);
    assert(stores_copy(texture));
    assert(texture.bytes.take(plan.need as int) =~= texture.bytes);
}

/// A linear output that stays in the engine seeds the next dispatch that stores to
/// the same window, and its guest memory is not read.
pub proof fn law_deferred_linear_output_seeds_the_next(
    cache: LinearCache,
    task_id: u32,
    plan: LinearPlan,
    generation: u32,
    residents: EngineResidents,
)
    requires
        plan.key is Some,
        cache.resident(task_id, plan.texture_ref, plan.window_spec()) == Some(generation),
        residents.storage_generation_spec(plan.key->0) == Some(generation),
    ensures
        source_of(
            plan,
            true,
            cache.resident(task_id, plan.texture_ref, plan.window_spec()),
            residents,
        ) == LinearSource::Seed(generation),
{
}

} // verus!

//! Roll-back of partly built Vulkan objects.
//!
//! Whatever fails while the renderer builds something, exactly what exists by
//! then is destroyed, dependents before what they depend on. The functions here
//! list what to destroy and in which order; handles are plain numbers.

use vstd::prelude::*;

verus! {

/// A Vulkan object to destroy or free.
#[derive(Clone, Copy, Debug, PartialEq, Eq, Structural)]
pub enum Resource {
    Buffer(u64),
    Memory(u64),
    Image(u64),
    ImageView(u64),
    Framebuffer(u64),
    RenderPass(u64),
    Semaphore(u64),
    Fence(u64),
    CommandBuffer(u64),
    Pipeline(u64),
    PipelineLayout(u64),
    Swapchain(u64),
}

// ---------------------------------------------------------------------------
// The compositor
// ---------------------------------------------------------------------------

/// A step of building the compositor.
#[derive(Clone, Copy, Debug, PartialEq, Eq, Structural)]
pub enum BuildStage {
    Instance,
    ProgramSurface,
    PreviewSurface,
    Device,
    CommandPool,
    CommandBuffer,
    FrameFence,
    Placeholder,
    SamplerLayout,
    MediaConversion,
    MediaSampler,
    MediaSamplerLayout,
    DescriptorPool,
    DescriptorSets,
    MediaDescriptorSets,
    SceneSampler,
    ItemSampler,
    Scene,
    ItemPipelineLayout,
    ItemPipeline,
    MediaItemPipelineLayout,
    MediaItemPipeline,
    Program,
    Preview,
}

/// The steps in the order in which they are taken.
pub open spec fn build_order() -> Seq<BuildStage> {
    seq![
        BuildStage::Instance,
        BuildStage::ProgramSurface,
        BuildStage::PreviewSurface,
        BuildStage::Device,
        BuildStage::CommandPool,
        BuildStage::CommandBuffer,
        BuildStage::FrameFence,
        BuildStage::Placeholder,
        BuildStage::SamplerLayout,
        BuildStage::MediaConversion,
        BuildStage::MediaSampler,
        BuildStage::MediaSamplerLayout,
        BuildStage::DescriptorPool,
        BuildStage::DescriptorSets,
        BuildStage::MediaDescriptorSets,
        BuildStage::SceneSampler,
        BuildStage::ItemSampler,
        BuildStage::Scene,
        BuildStage::ItemPipelineLayout,
        BuildStage::ItemPipeline,
        BuildStage::MediaItemPipelineLayout,
        BuildStage::MediaItemPipeline,
        BuildStage::Program,
        BuildStage::Preview,
    ]
}

/// The objects in the order in which they are destroyed. Command buffers and
/// descriptor sets go with their pools.
pub open spec fn teardown_order() -> Seq<BuildStage> {
    seq![
        BuildStage::Program,
        BuildStage::Preview,
        BuildStage::Placeholder,
        BuildStage::ItemPipeline,
        BuildStage::ItemPipelineLayout,
        BuildStage::MediaItemPipeline,
        BuildStage::MediaItemPipelineLayout,
        BuildStage::MediaSampler,
        BuildStage::MediaConversion,
        BuildStage::MediaSamplerLayout,
        BuildStage::Scene,
        BuildStage::SceneSampler,
        BuildStage::ItemSampler,
        BuildStage::DescriptorPool,
        BuildStage::SamplerLayout,
        BuildStage::CommandPool,
        BuildStage::FrameFence,
        BuildStage::Device,
        BuildStage::ProgramSurface,
        BuildStage::PreviewSurface,
        BuildStage::Instance,
    ]
}

/// The place of a step in the build order.
pub open spec fn step_number(stage: BuildStage) -> int {
    match stage {
        BuildStage::Instance => 0,
        BuildStage::ProgramSurface => 1,
        BuildStage::PreviewSurface => 2,
        BuildStage::Device => 3,
        BuildStage::CommandPool => 4,
        BuildStage::CommandBuffer => 5,
        BuildStage::FrameFence => 6,
        BuildStage::Placeholder => 7,
        BuildStage::SamplerLayout => 8,
        BuildStage::MediaConversion => 9,
        BuildStage::MediaSampler => 10,
        BuildStage::MediaSamplerLayout => 11,
        BuildStage::DescriptorPool => 12,
        BuildStage::DescriptorSets => 13,
        BuildStage::MediaDescriptorSets => 14,
        BuildStage::SceneSampler => 15,
        BuildStage::ItemSampler => 16,
        BuildStage::Scene => 17,
        BuildStage::ItemPipelineLayout => 18,
        BuildStage::ItemPipeline => 19,
        BuildStage::MediaItemPipelineLayout => 20,
        BuildStage::MediaItemPipeline => 21,
        BuildStage::Program => 22,
        BuildStage::Preview => 23,
    }
}

fn step_at(i: usize) -> (r: BuildStage)
    requires
        i < 24,
    ensures
        r == build_order()[i as int],
        step_number(r) == i,
{
    if i == 0 {
        BuildStage::Instance
    } else if i == 1 {
        BuildStage::ProgramSurface
    } else if i == 2 {
        BuildStage::PreviewSurface
    } else if i == 3 {
        BuildStage::Device
    } else if i == 4 {
        BuildStage::CommandPool
    } else if i == 5 {
        BuildStage::CommandBuffer
    } else if i == 6 {
        BuildStage::FrameFence
    } else if i == 7 {
        BuildStage::Placeholder
    } else if i == 8 {
        BuildStage::SamplerLayout
    } else if i == 9 {
        BuildStage::MediaConversion
    } else if i == 10 {
        BuildStage::MediaSampler
    } else if i == 11 {
        BuildStage::MediaSamplerLayout
    } else if i == 12 {
        BuildStage::DescriptorPool
    } else if i == 13 {
        BuildStage::DescriptorSets
    } else if i == 14 {
        BuildStage::MediaDescriptorSets
    } else if i == 15 {
        BuildStage::SceneSampler
    } else if i == 16 {
        BuildStage::ItemSampler
    } else if i == 17 {
        BuildStage::Scene
    } else if i == 18 {
        BuildStage::ItemPipelineLayout
    } else if i == 19 {
        BuildStage::ItemPipeline
    } else if i == 20 {
        BuildStage::MediaItemPipelineLayout
    } else if i == 21 {
        BuildStage::MediaItemPipeline
    } else if i == 22 {
        BuildStage::Program
    } else {
        BuildStage::Preview
    }
}

/// How far building the compositor has come: the steps are taken in order, so
/// their number says which objects exist.
pub struct PartialVulkan {
    done: usize,
}

/// Whether the object of a step exists after so many steps.
pub open spec fn exists_after(done: nat, stage: BuildStage) -> bool {
    step_number(stage) < done
}

/// Whether the roll-back after so many steps destroys the object of a step: it
/// exists, has an owner of its own, and was not adopted. A swapchain target adopts
/// its surface.
pub open spec fn is_released(done: nat, stage: BuildStage) -> bool {
    &&& exists_after(done, stage)
    &&& stage != BuildStage::CommandBuffer
    &&& stage != BuildStage::DescriptorSets
    &&& stage != BuildStage::MediaDescriptorSets
    &&& stage == BuildStage::ProgramSurface ==> !exists_after(done, BuildStage::Program)
    &&& stage == BuildStage::PreviewSurface ==> !exists_after(done, BuildStage::Preview)
}

fn release(list: &mut Vec<BuildStage>, done: usize, stage: BuildStage, number: usize)
    requires
        number == step_number(stage),
        stage != BuildStage::CommandBuffer,
        stage != BuildStage::DescriptorSets,
        stage != BuildStage::MediaDescriptorSets,
        stage != BuildStage::ProgramSurface,
        stage != BuildStage::PreviewSurface,
    ensures
        final(list)@ == (if is_released(done as nat, stage) {
            old(list)@.push(stage)
        } else {
            old(list)@
        }),
{
    if number < done {
        list.push(stage);
    }
}

/// What the roll-back destroys among the first `n` objects of the teardown order.
pub open spec fn released_prefix(done: nat, n: int) -> Seq<BuildStage>
    decreases n,
{
    if n <= 0 {
        Seq::empty()
    } else {
        let before = released_prefix(done, n - 1);
        if is_released(done, teardown_order()[n - 1]) {
            before.push(teardown_order()[n - 1])
        } else {
            before
        }
    }
}

impl PartialVulkan {
    /// How many steps were taken.
    pub closed spec fn steps(self) -> nat {
        self.done as nat
    }

    /// No more steps were taken than there are.
    pub open spec fn wf(self) -> bool {
        self.steps() <= 24
    }

    /// Before the first step.
    pub fn new() -> (r: Self)
        ensures
            r.wf(),
            r.steps() == 0,
    {
        PartialVulkan { done: 0 }
    }

    /// The step to take next, or `None` where the compositor is complete.
    pub fn next_step(&self) -> (r: Option<BuildStage>)
        requires
            self.wf(),
        ensures
            match r {
                Some(stage) => self.steps() < 24 && stage == build_order()[self.steps() as int],
                None => self.steps() == 24,
            },
    {
        if self.done < 24 {
            Some(step_at(self.done))
        } else {
            None
        }
    }

    /// The next step succeeded.
    pub fn step_done(&mut self)
        requires
            old(self).wf(),
            old(self).steps() < 24,
        ensures
            final(self).wf(),
            final(self).steps() == old(self).steps() + 1,
    {
        self.done = self.done + 1;
    }

    /// What to destroy, in order, where the next step failed.
    pub fn destroy_created(&self) -> (r: Vec<BuildStage>)
        requires
            self.wf(),
        ensures
            r@ == released_prefix(self.steps(), 21),
    {
        let mut list: Vec<BuildStage> = Vec::new();
        let done: usize = self.done;
        proof {
            reveal_with_fuel(released_prefix, 22);
        }
        release(&mut list, done, BuildStage::Program, 22);
        release(&mut list, done, BuildStage::Preview, 23);
        release(&mut list, done, BuildStage::Placeholder, 7);
        release(&mut list, done, BuildStage::ItemPipeline, 19);
        release(&mut list, done, BuildStage::ItemPipelineLayout, 18);
        release(&mut list, done, BuildStage::MediaItemPipeline, 21);
        release(&mut list, done, BuildStage::MediaItemPipelineLayout, 20);
        assert(list@ == released_prefix(done as nat, 7));
        release(&mut list, done, BuildStage::MediaSampler, 10);
        release(&mut list, done, BuildStage::MediaConversion, 9);
        release(&mut list, done, BuildStage::MediaSamplerLayout, 11);
        release(&mut list, done, BuildStage::Scene, 17);
        release(&mut list, done, BuildStage::SceneSampler, 15);
        release(&mut list, done, BuildStage::ItemSampler, 16);
        assert(list@ == released_prefix(done as nat, 13));
        release(&mut list, done, BuildStage::DescriptorPool, 12);
        release(&mut list, done, BuildStage::SamplerLayout, 8);
        release(&mut list, done, BuildStage::CommandPool, 4);
        release(&mut list, done, BuildStage::FrameFence, 6);
        release(&mut list, done, BuildStage::Device, 3);
        assert(list@ == released_prefix(done as nat, 18));
        if 1 < done && done <= 22 {
            list.push(BuildStage::ProgramSurface);
        }
        if 2 < done && done <= 23 {
            list.push(BuildStage::PreviewSurface);
        }
        release(&mut list, done, BuildStage::Instance, 0);
        list
    }
}

proof fn lemma_released_prefix(done: nat, n: int, stage: BuildStage)
    requires
        0 <= n <= 21,
    ensures
        released_prefix(done, n).contains(stage) <==> is_released(done, stage)
            && teardown_order().take(n).contains(stage),
        released_prefix(done, n).len() <= n,
    decreases n,
{
    if n > 0 {
        lemma_released_prefix(done, n - 1, stage);
        let before = released_prefix(done, n - 1);
        let all = released_prefix(done, n);
        let last = teardown_order()[n - 1];
        let prefix = teardown_order().take(n);
        assert(prefix.contains(stage) <==> teardown_order().take(n - 1).contains(stage) || stage
            == last) by {
            if teardown_order().take(n - 1).contains(stage) {
                let i = teardown_order().take(n - 1).index_of(stage);
                assert(prefix[i] == stage);
            }
            if prefix.contains(stage) && stage != last {
                let i = prefix.index_of(stage);
                assert(teardown_order().take(n - 1)[i] == stage);
            }
            assert(prefix[n - 1] == last);
        }
        if is_released(done, last) {
            assert(all.contains(stage) <==> before.contains(stage) || stage == last) by {
                if before.contains(stage) {
                    let i = before.index_of(stage);
                    assert(all[i] == stage);
                }
                if all.contains(stage) && stage != last {
                    let i = all.index_of(stage);
                    assert(before[i] == stage);
                }
                assert(all[before.len() as int] == last);
            }
        }
    }
}

/// A failure after any number of steps destroys an object exactly where it exists
/// and nobody else owns it.
pub proof fn law_rollback_destroys_what_exists(done: nat, stage: BuildStage)
    requires
        done <= 24,
    ensures
        released_prefix(done, 21).contains(stage) <==> is_released(done, stage),
{
    lemma_released_prefix(done, 21, stage);
    assert(teardown_order().take(21) =~= teardown_order());
    let t = teardown_order();
    assert(is_released(done, stage) ==> t.contains(stage)) by {
        assert(t[0] == BuildStage::Program && t[1] == BuildStage::Preview && t[2]
            == BuildStage::Placeholder && t[3] == BuildStage::ItemPipeline && t[4]
            == BuildStage::ItemPipelineLayout && t[5] == BuildStage::MediaItemPipeline && t[6]
            == BuildStage::MediaItemPipelineLayout);
        assert(t[7] == BuildStage::MediaSampler && t[8] == BuildStage::MediaConversion && t[9]
            == BuildStage::MediaSamplerLayout && t[10] == BuildStage::Scene && t[11]
            == BuildStage::SceneSampler && t[12] == BuildStage::ItemSampler && t[13]
            == BuildStage::DescriptorPool);
        assert(t[14] == BuildStage::SamplerLayout && t[15] == BuildStage::CommandPool && t[16]
            == BuildStage::FrameFence && t[17] == BuildStage::Device && t[18]
            == BuildStage::ProgramSurface && t[19] == BuildStage::PreviewSurface && t[20]
            == BuildStage::Instance);
    }
}

proof fn lemma_prefix_sorted(done: nat, n: int, position: spec_fn(BuildStage) -> int)
    requires
        0 <= n <= 21,
        forall|i: int| 0 <= i < 21 ==> position(#[trigger] teardown_order()[i]) == i,
    ensures
        forall|i: int|
            0 <= i < released_prefix(done, n).len() ==> position(
                #[trigger] released_prefix(done, n)[i],
            ) < n,
        forall|i: int, j: int|
            0 <= i < j < released_prefix(done, n).len() ==> position(
                #[trigger] released_prefix(done, n)[i],
            ) < position(#[trigger] released_prefix(done, n)[j]),
    decreases n,
{
    if n > 0 {
        lemma_prefix_sorted(done, n - 1, position);
        let before = released_prefix(done, n - 1);
        let all = released_prefix(done, n);
        assert(position(teardown_order()[n - 1]) == n - 1);
        assert forall|i: int| 0 <= i < all.len() implies position(#[trigger] all[i]) < n by {
            if i < before.len() {
                assert(all[i] == before[i]);
            }
        }
        assert forall|i: int, j: int| 0 <= i < j < all.len() implies position(#[trigger] all[i])
            < position(#[trigger] all[j]) by {
            assert(all[i] == before[i]);
            if j < before.len() {
                assert(all[j] == before[j]);
            }
        }
    }
}

/// The place of an object in the teardown order.
pub open spec fn teardown_number(stage: BuildStage) -> int {
    match stage {
        BuildStage::Program => 0,
        BuildStage::Preview => 1,
        BuildStage::Placeholder => 2,
        BuildStage::ItemPipeline => 3,
        BuildStage::ItemPipelineLayout => 4,
        BuildStage::MediaItemPipeline => 5,
        BuildStage::MediaItemPipelineLayout => 6,
        BuildStage::MediaSampler => 7,
        BuildStage::MediaConversion => 8,
        BuildStage::MediaSamplerLayout => 9,
        BuildStage::Scene => 10,
        BuildStage::SceneSampler => 11,
        BuildStage::ItemSampler => 12,
        BuildStage::DescriptorPool => 13,
        BuildStage::SamplerLayout => 14,
        BuildStage::CommandPool => 15,
        BuildStage::FrameFence => 16,
        BuildStage::Device => 17,
        BuildStage::ProgramSurface => 18,
        BuildStage::PreviewSurface => 19,
        BuildStage::Instance => 20,
        BuildStage::CommandBuffer => 21,
        BuildStage::DescriptorSets => 22,
        BuildStage::MediaDescriptorSets => 23,
    }
}

/// Nothing is destroyed twice, the device is destroyed after everything made on
/// it, and the instance last.
pub proof fn law_rollback_respects_dependencies(done: nat, i: int, j: int)
    requires
        done <= 24,
        0 <= i < j < released_prefix(done, 21).len(),
    ensures
        released_prefix(done, 21)[i] != released_prefix(done, 21)[j],
        released_prefix(done, 21)[i] != BuildStage::Instance,
        released_prefix(done, 21)[i] == BuildStage::Device ==> released_prefix(done, 21)[j]
            == BuildStage::ProgramSurface || released_prefix(done, 21)[j]
            == BuildStage::PreviewSurface || released_prefix(done, 21)[j] == BuildStage::Instance,
{
    let position = |s: BuildStage| teardown_number(s);
    assert forall|k: int| 0 <= k < 21 implies position(#[trigger] teardown_order()[k]) == k by {
        let t = teardown_order();
        assert(k == 0 || k == 1 || k == 2 || k == 3 || k == 4 || k == 5 || k == 6 || k == 7 || k
            == 8 || k == 9 || k == 10 || k == 11 || k == 12 || k == 13 || k == 14 || k == 15 || k
            == 16 || k == 17 || k == 18 || k == 19 || k == 20);
    }
    lemma_prefix_sorted(done, 21, position);
    let all = released_prefix(done, 21);
    assert(position(all[i]) < position(all[j]));
    assert(position(all[j]) < 21);
}

/// Whether a part is made with another and must not outlive it.
pub open spec fn rests_on(part: BuildStage, base: BuildStage) -> bool {
    ||| base == BuildStage::Instance && part != BuildStage::Instance
    ||| base == BuildStage::Device && part != BuildStage::Instance && part
        != BuildStage::ProgramSurface && part != BuildStage::PreviewSurface && part
        != BuildStage::Device
    ||| base == BuildStage::CommandPool && (part == BuildStage::CommandBuffer || part
        == BuildStage::Placeholder)
    ||| base == BuildStage::DescriptorPool && (part == BuildStage::DescriptorSets || part
        == BuildStage::MediaDescriptorSets)
    ||| base == BuildStage::MediaConversion && part == BuildStage::MediaSampler
    ||| base == BuildStage::SamplerLayout && part == BuildStage::ItemPipelineLayout
    ||| base == BuildStage::MediaSamplerLayout && part == BuildStage::MediaItemPipelineLayout
    ||| base == BuildStage::ItemPipelineLayout && part == BuildStage::ItemPipeline
    ||| base == BuildStage::MediaItemPipelineLayout && part == BuildStage::MediaItemPipeline
    ||| base == BuildStage::Scene && (part == BuildStage::ItemPipeline || part
        == BuildStage::MediaItemPipeline)
    ||| base == BuildStage::ProgramSurface && part == BuildStage::Program
    ||| base == BuildStage::PreviewSurface && part == BuildStage::Preview
}

/// Every part is built after what it rests on, and destroyed before it.
pub proof fn law_parts_come_after_and_go_before_their_base(
    part: BuildStage,
    base: BuildStage,
    done: nat,
    i: int,
    j: int,
)
    requires
        done <= 24,
    ensures
        rests_on(part, base) ==> step_number(base) < step_number(part),
        build_order()[step_number(part)] == part,
        0 <= i < j < released_prefix(done, 21).len() ==> !rests_on(
            released_prefix(done, 21)[j],
            released_prefix(done, 21)[i],
        ),
{
    if 0 <= i < j < released_prefix(done, 21).len() {
        let position = |s: BuildStage| teardown_number(s);
        assert forall|k: int| 0 <= k < 21 implies position(#[trigger] teardown_order()[k]) == k by {
            let t = teardown_order();
            assert(k == 0 || k == 1 || k == 2 || k == 3 || k == 4 || k == 5 || k == 6 || k == 7 || k
                == 8 || k == 9 || k == 10 || k == 11 || k == 12 || k == 13 || k == 14 || k == 15
                || k == 16 || k == 17 || k == 18 || k == 19 || k == 20);
        }
        lemma_prefix_sorted(done, 21, position);
        let all = released_prefix(done, 21);
        assert(position(all[i]) < position(all[j]));
        assert(position(all[j]) < 21);
    }
}

/// What was built is released, but for what goes with its pool and for a surface that
/// went over to its swapchain.
pub proof fn law_everything_built_is_released_once(done: nat, stage: BuildStage)
    requires
        done <= 24,
    ensures
        is_released(done, stage) ==> step_number(stage) < done,
        step_number(stage) < done && stage != BuildStage::CommandBuffer && stage
            != BuildStage::DescriptorSets && stage != BuildStage::MediaDescriptorSets && stage
            != BuildStage::ProgramSurface && stage != BuildStage::PreviewSurface ==> is_released(
            done,
            stage,
        ),
        is_released(done, BuildStage::ProgramSurface) <==> 1 < done <= 22,
        is_released(done, BuildStage::PreviewSurface) <==> 2 < done <= 23,
        is_released(done, BuildStage::Program) <==> done > 22,
        is_released(done, BuildStage::Preview) <==> done == 24,
        !is_released(done, BuildStage::CommandBuffer),
        !is_released(done, BuildStage::DescriptorSets),
        !is_released(done, BuildStage::MediaDescriptorSets),
{
}

// ---------------------------------------------------------------------------
// Swapchains
// ---------------------------------------------------------------------------

/// What exists of a swapchain while it is built.
pub struct SwapchainStage {
    pub render_pass: u64,
    pub swapchain: Option<u64>,
    pub views: Vec<u64>,
    pub framebuffers: Vec<u64>,
    pub available: Option<u64>,
    pub rendered: Vec<u64>,
    pub pipeline_layout: Option<u64>,
    pub pipeline: Option<u64>,
}

/// The object, if it exists.
pub open spec fn optional(handle: Option<u64>, kind: spec_fn(u64) -> Resource) -> Seq<Resource> {
    match handle {
        Some(h) => seq![kind(h)],
        None => Seq::empty(),
    }
}

/// The objects, in order.
pub open spec fn each(handles: Seq<u64>, kind: spec_fn(u64) -> Resource) -> Seq<Resource> {
    handles.map_values(kind)
}

fn push_views(list: &mut Vec<Resource>, handles: &Vec<u64>)
    ensures
        final(list)@ == old(list)@ + each(handles@, |h: u64| Resource::ImageView(h)),
{
    let mut i: usize = 0;
    while i < handles.len()
        invariant
            i <= handles@.len(),
            list@ =~= old(list)@ + each(handles@, |h: u64| Resource::ImageView(h)).take(i as int),
        decreases handles@.len() - i,
    {
        list.push(Resource::ImageView(handles[i]));
        i += 1;
    }
    assert(list@ =~= old(list)@ + each(handles@, |h: u64| Resource::ImageView(h)));
}

fn push_framebuffers(list: &mut Vec<Resource>, handles: &Vec<u64>)
    ensures
        final(list)@ == old(list)@ + each(handles@, |h: u64| Resource::Framebuffer(h)),
{
    let mut i: usize = 0;
    while i < handles.len()
        invariant
            i <= handles@.len(),
            list@ =~= old(list)@ + each(handles@, |h: u64| Resource::Framebuffer(h)).take(i as int),
        decreases handles@.len() - i,
    {
        list.push(Resource::Framebuffer(handles[i]));
        i += 1;
    }
    assert(list@ =~= old(list)@ + each(handles@, |h: u64| Resource::Framebuffer(h)));
}

fn push_semaphores(list: &mut Vec<Resource>, handles: &Vec<u64>)
    ensures
        final(list)@ == old(list)@ + each(handles@, |h: u64| Resource::Semaphore(h)),
{
    let mut i: usize = 0;
    while i < handles.len()
        invariant
            i <= handles@.len(),
            list@ =~= old(list)@ + each(handles@, |h: u64| Resource::Semaphore(h)).take(i as int),
        decreases handles@.len() - i,
    {
        list.push(Resource::Semaphore(handles[i]));
        i += 1;
    }
    assert(list@ =~= old(list)@ + each(handles@, |h: u64| Resource::Semaphore(h)));
}

fn push_memories(list: &mut Vec<Resource>, handles: &Vec<u64>)
    ensures
        final(list)@ == old(list)@ + each(handles@, |h: u64| Resource::Memory(h)),
{
    let mut i: usize = 0;
    while i < handles.len()
        invariant
            i <= handles@.len(),
            list@ =~= old(list)@ + each(handles@, |h: u64| Resource::Memory(h)).take(i as int),
        decreases handles@.len() - i,
    {
        list.push(Resource::Memory(handles[i]));
        i += 1;
    }
    assert(list@ =~= old(list)@ + each(handles@, |h: u64| Resource::Memory(h)));
}

fn push_optional(list: &mut Vec<Resource>, resource: Option<Resource>)
    ensures
        final(list)@ == (match resource {
            Some(r) => old(list)@.push(r),
            None => old(list)@,
        }),
{
    match resource {
        Some(r) => {
            list.push(r);
        },
        None => {},
    }
}

impl SwapchainStage {
    /// A swapchain of which only the render pass exists.
    pub fn new(render_pass: u64) -> (r: Self)
        ensures
            r.render_pass == render_pass,
            r.swapchain is None,
            r.views@.len() == 0,
            r.framebuffers@.len() == 0,
            r.available is None,
            r.rendered@.len() == 0,
            r.pipeline_layout is None,
            r.pipeline is None,
    {
        SwapchainStage {
            render_pass,
            swapchain: None,
            views: Vec::new(),
            framebuffers: Vec::new(),
            available: None,
            rendered: Vec::new(),
            pipeline_layout: None,
            pipeline: None,
        }
    }

    /// What a failed build destroys, in order. The surface stays.
    pub open spec fn rollback_list(self) -> Seq<Resource> {
        optional(self.pipeline, |h: u64| Resource::Pipeline(h)) + optional(
            self.pipeline_layout,
            |h: u64| Resource::PipelineLayout(h),
        ) + each(self.rendered@, |h: u64| Resource::Semaphore(h)) + optional(
            self.available,
            |h: u64| Resource::Semaphore(h),
        ) + each(self.framebuffers@, |h: u64| Resource::Framebuffer(h)) + each(
            self.views@,
            |h: u64| Resource::ImageView(h),
        ) + optional(self.swapchain, |h: u64| Resource::Swapchain(h)) + seq![
            Resource::RenderPass(self.render_pass),
        ]
    }

    /// What a failed build destroys, in order.
    pub fn rollback(&self) -> (r: Vec<Resource>)
        ensures
            r@ == self.rollback_list(),
    {
        let mut list: Vec<Resource> = Vec::new();
        push_optional(
            &mut list,
            match self.pipeline {
                Some(h) => Some(Resource::Pipeline(h)),
                None => None,
            },
        );
        assert(list@ =~= optional(self.pipeline, |h: u64| Resource::Pipeline(h)));
        push_optional(
            &mut list,
            match self.pipeline_layout {
                Some(h) => Some(Resource::PipelineLayout(h)),
                None => None,
            },
        );
        assert(list@ =~= optional(self.pipeline, |h: u64| Resource::Pipeline(h)) + optional(
            self.pipeline_layout,
            |h: u64| Resource::PipelineLayout(h),
        ));
        push_semaphores(&mut list, &self.rendered);
        let ghost a = list@;
        push_optional(
            &mut list,
            match self.available {
                Some(h) => Some(Resource::Semaphore(h)),
                None => None,
            },
        );
        assert(list@ =~= a + optional(self.available, |h: u64| Resource::Semaphore(h)));
        push_framebuffers(&mut list, &self.framebuffers);
        push_views(&mut list, &self.views);
        let ghost b = list@;
        push_optional(
            &mut list,
            match self.swapchain {
                Some(h) => Some(Resource::Swapchain(h)),
                None => None,
            },
        );
        assert(list@ =~= b + optional(self.swapchain, |h: u64| Resource::Swapchain(h)));
        list.push(Resource::RenderPass(self.render_pass));
        assert(list@ =~= self.rollback_list());
        list
    }

    /// What retiring a swapchain destroys, in order. The surface stays, since the
    /// replacement adopts it.
    pub open spec fn retire_list(self) -> Seq<Resource> {
        each(self.framebuffers@, |h: u64| Resource::Framebuffer(h)) + each(
            self.views@,
            |h: u64| Resource::ImageView(h),
        ) + optional(self.pipeline, |h: u64| Resource::Pipeline(h)) + optional(
            self.pipeline_layout,
            |h: u64| Resource::PipelineLayout(h),
        ) + seq![Resource::RenderPass(self.render_pass)] + optional(
            self.available,
            |h: u64| Resource::Semaphore(h),
        ) + each(self.rendered@, |h: u64| Resource::Semaphore(h)) + optional(
            self.swapchain,
            |h: u64| Resource::Swapchain(h),
        )
    }

    /// What retiring a swapchain destroys, in order.
    pub fn retire(&self) -> (r: Vec<Resource>)
        ensures
            r@ == self.retire_list(),
    {
        let mut list: Vec<Resource> = Vec::new();
        push_framebuffers(&mut list, &self.framebuffers);
        assert(list@ =~= each(self.framebuffers@, |h: u64| Resource::Framebuffer(h)));
        push_views(&mut list, &self.views);
        let ghost a = list@;
        push_optional(
            &mut list,
            match self.pipeline {
                Some(h) => Some(Resource::Pipeline(h)),
                None => None,
            },
        );
        assert(list@ =~= a + optional(self.pipeline, |h: u64| Resource::Pipeline(h)));
        let ghost b = list@;
        push_optional(
            &mut list,
            match self.pipeline_layout {
                Some(h) => Some(Resource::PipelineLayout(h)),
                None => None,
            },
        );
        assert(list@ =~= b + optional(self.pipeline_layout, |h: u64| Resource::PipelineLayout(h)));
        list.push(Resource::RenderPass(self.render_pass));
        let ghost c = list@;
        push_optional(
            &mut list,
            match self.available {
                Some(h) => Some(Resource::Semaphore(h)),
                None => None,
            },
        );
        assert(list@ =~= c + optional(self.available, |h: u64| Resource::Semaphore(h)));
        push_semaphores(&mut list, &self.rendered);
        let ghost d = list@;
        push_optional(
            &mut list,
            match self.swapchain {
                Some(h) => Some(Resource::Swapchain(h)),
                None => None,
            },
        );
        assert(list@ =~= d + optional(self.swapchain, |h: u64| Resource::Swapchain(h)));
        assert(list@ =~= self.retire_list());
        list
    }
}

/// An upload gives its staging memory back in any case; the fence and the commands as far
/// as they exist; and the new image only where the copy failed.
pub proof fn law_upload_gives_its_staging_back(stage: UploadStage, outcome: UploadOutcome)
    ensures
        upload_list(stage, outcome).contains(Resource::Buffer(stage.staging_buffer)),
        upload_list(stage, outcome).contains(Resource::Memory(stage.staging_memory)),
        upload_list(stage, outcome).contains(Resource::Image(stage.image)) <==> outcome
            == UploadOutcome::CopyFailed,
        stage.memory != stage.staging_memory ==> (upload_list(stage, outcome).contains(
            Resource::Memory(stage.memory),
        ) <==> outcome == UploadOutcome::CopyFailed),
        outcome != UploadOutcome::NoImage ==> (stage.fence matches Some(fence) ==> upload_list(
            stage,
            outcome,
        )[0] == Resource::Fence(fence)),
        outcome != UploadOutcome::NoImage ==> (stage.command_buffer matches Some(commands)
            ==> upload_list(stage, outcome).contains(Resource::CommandBuffer(commands))),
{
    let fence = optional(stage.fence, |h: u64| Resource::Fence(h));
    let commands = optional(stage.command_buffer, |h: u64| Resource::CommandBuffer(h));
    let list = upload_list(stage, outcome);
    let skip: int = if outcome == UploadOutcome::NoImage {
        0
    } else {
        (fence.len() + commands.len()) as int
    };
    assert(list[skip] == Resource::Buffer(stage.staging_buffer));
    assert(list[skip + 1] == Resource::Memory(stage.staging_memory));
    if outcome == UploadOutcome::CopyFailed {
        assert(list[skip + 2] == Resource::Image(stage.image));
        assert(list[skip + 3] == Resource::Memory(stage.memory));
    }
    if outcome != UploadOutcome::NoImage && stage.command_buffer is Some {
        assert(list[fence.len() as int] == Resource::CommandBuffer(stage.command_buffer->0));
    }
}

/// Rolling a build back and retiring it destroy the same objects, each equally
/// often.
pub proof fn law_rollback_and_retire_agree(stage: SwapchainStage)
    ensures
        stage.rollback_list().to_multiset() == stage.retire_list().to_multiset(),
{
    broadcast use vstd::seq_lib::group_to_multiset_ensures;

    let p = optional(stage.pipeline, |h: u64| Resource::Pipeline(h));
    let l = optional(stage.pipeline_layout, |h: u64| Resource::PipelineLayout(h));
    let r = each(stage.rendered@, |h: u64| Resource::Semaphore(h));
    let a = optional(stage.available, |h: u64| Resource::Semaphore(h));
    let f = each(stage.framebuffers@, |h: u64| Resource::Framebuffer(h));
    let v = each(stage.views@, |h: u64| Resource::ImageView(h));
    let s = optional(stage.swapchain, |h: u64| Resource::Swapchain(h));
    let e = seq![Resource::RenderPass(stage.render_pass)];
    vstd::seq_lib::lemma_multiset_commutative(p, l);
    vstd::seq_lib::lemma_multiset_commutative(p + l, r);
    vstd::seq_lib::lemma_multiset_commutative(p + l + r, a);
    vstd::seq_lib::lemma_multiset_commutative(p + l + r + a, f);
    vstd::seq_lib::lemma_multiset_commutative(p + l + r + a + f, v);
    vstd::seq_lib::lemma_multiset_commutative(p + l + r + a + f + v, s);
    vstd::seq_lib::lemma_multiset_commutative(p + l + r + a + f + v + s, e);
    vstd::seq_lib::lemma_multiset_commutative(f, v);
    vstd::seq_lib::lemma_multiset_commutative(f + v, p);
    vstd::seq_lib::lemma_multiset_commutative(f + v + p, l);
    vstd::seq_lib::lemma_multiset_commutative(f + v + p + l, e);
    vstd::seq_lib::lemma_multiset_commutative(f + v + p + l + e, a);
    vstd::seq_lib::lemma_multiset_commutative(f + v + p + l + e + a, r);
    vstd::seq_lib::lemma_multiset_commutative(f + v + p + l + e + a + r, s);
    assert(stage.rollback_list().to_multiset() =~= stage.retire_list().to_multiset());
}

// ---------------------------------------------------------------------------
// Scene targets, imports and uploads
// ---------------------------------------------------------------------------

/// What exists of a scene target while it is built. The render pass belongs to
/// the caller.
#[derive(Clone, Copy, Debug, PartialEq, Eq, Structural)]
pub struct SceneStage {
    pub image: u64,
    pub memory: Option<u64>,
    pub view: Option<u64>,
    pub framebuffer: Option<u64>,
}

/// What a failed scene target destroys, in order.
pub fn scene_rollback(stage: SceneStage) -> (r: Vec<Resource>)
    ensures
        r@ == optional(stage.framebuffer, |h: u64| Resource::Framebuffer(h)) + optional(
            stage.view,
            |h: u64| Resource::ImageView(h),
        ) + seq![Resource::Image(stage.image)] + optional(
            stage.memory,
            |h: u64| Resource::Memory(h),
        ),
{
    let mut list: Vec<Resource> = Vec::new();
    match stage.framebuffer {
        Some(h) => {
            list.push(Resource::Framebuffer(h));
        },
        None => {},
    }
    match stage.view {
        Some(h) => {
            list.push(Resource::ImageView(h));
        },
        None => {},
    }
    list.push(Resource::Image(stage.image));
    match stage.memory {
        Some(h) => {
            list.push(Resource::Memory(h));
        },
        None => {},
    }
    assert(list@ =~= optional(stage.framebuffer, |h: u64| Resource::Framebuffer(h)) + optional(
        stage.view,
        |h: u64| Resource::ImageView(h),
    ) + seq![Resource::Image(stage.image)] + optional(stage.memory, |h: u64| Resource::Memory(h)));
    list
}

/// What exists of an imported frame while it is imported.
pub struct ImportStage {
    pub image: u64,
    pub memories: Vec<u64>,
    pub view: Option<u64>,
}

/// What a failed import destroys, in order.
pub fn import_rollback(stage: &ImportStage) -> (r: Vec<Resource>)
    ensures
        r@ == optional(stage.view, |h: u64| Resource::ImageView(h)) + each(
            stage.memories@,
            |h: u64| Resource::Memory(h),
        ) + seq![Resource::Image(stage.image)],
{
    let mut list: Vec<Resource> = Vec::new();
    match stage.view {
        Some(h) => {
            list.push(Resource::ImageView(h));
        },
        None => {},
    }
    assert(list@ =~= optional(stage.view, |h: u64| Resource::ImageView(h)));
    push_memories(&mut list, &stage.memories);
    list.push(Resource::Image(stage.image));
    assert(list@ =~= optional(stage.view, |h: u64| Resource::ImageView(h)) + each(
        stage.memories@,
        |h: u64| Resource::Memory(h),
    ) + seq![Resource::Image(stage.image)]);
    list
}

/// What a failed buffer or image with its memory destroys: the memory, if it was
/// allocated, then the object.
pub fn bound_rollback(object: Resource, memory: Option<u64>) -> (r: Vec<Resource>)
    ensures
        r@ == optional(memory, |h: u64| Resource::Memory(h)).push(object),
{
    let mut list: Vec<Resource> = Vec::new();
    match memory {
        Some(h) => {
            list.push(Resource::Memory(h));
        },
        None => {},
    }
    list.push(object);
    assert(list@ =~= optional(memory, |h: u64| Resource::Memory(h)).push(object));
    list
}

/// How far an upload came.
#[derive(Clone, Copy, Debug, PartialEq, Eq, Structural)]
pub enum UploadOutcome {
    /// Before the target image existed.
    NoImage,
    /// The copy failed.
    CopyFailed,
    /// The copy succeeded.
    Copied,
}

/// What exists during an upload.
#[derive(Clone, Copy, Debug, PartialEq, Eq, Structural)]
pub struct UploadStage {
    pub staging_buffer: u64,
    pub staging_memory: u64,
    pub image: u64,
    pub memory: u64,
    pub command_buffer: Option<u64>,
    pub fence: Option<u64>,
}

/// What an upload destroys when its copy is over, in order: what only served the
/// copy, and after a failed copy the image too.
pub open spec fn upload_list(stage: UploadStage, outcome: UploadOutcome) -> Seq<Resource> {
    let staging = seq![
        Resource::Buffer(stage.staging_buffer),
        Resource::Memory(stage.staging_memory),
    ];
    match outcome {
        UploadOutcome::NoImage => staging,
        UploadOutcome::CopyFailed => optional(stage.fence, |h: u64| Resource::Fence(h)) + optional(
            stage.command_buffer,
            |h: u64| Resource::CommandBuffer(h),
        ) + staging + seq![Resource::Image(stage.image), Resource::Memory(stage.memory)],
        UploadOutcome::Copied => optional(stage.fence, |h: u64| Resource::Fence(h)) + optional(
            stage.command_buffer,
            |h: u64| Resource::CommandBuffer(h),
        ) + staging,
    }
}

/// What an upload destroys when its copy is over.
pub fn upload_release(stage: UploadStage, outcome: UploadOutcome) -> (r: Vec<Resource>)
    ensures
        r@ == upload_list(stage, outcome),
{
    let mut list: Vec<Resource> = Vec::new();
    if outcome != UploadOutcome::NoImage {
        match stage.fence {
            Some(h) => {
                list.push(Resource::Fence(h));
            },
            None => {},
        }
        match stage.command_buffer {
            Some(h) => {
                list.push(Resource::CommandBuffer(h));
            },
            None => {},
        }
    }
    list.push(Resource::Buffer(stage.staging_buffer));
    list.push(Resource::Memory(stage.staging_memory));
    if outcome == UploadOutcome::CopyFailed {
        list.push(Resource::Image(stage.image));
        list.push(Resource::Memory(stage.memory));
    }
    assert(list@ =~= upload_list(stage, outcome));
    list
}

/// What an upload destroys when its view cannot be made, in order.
pub fn upload_view_failed(stage: UploadStage) -> (r: Vec<Resource>)
    ensures
        r@ == seq![Resource::Image(stage.image), Resource::Memory(stage.memory)],
{
    let mut list: Vec<Resource> = Vec::new();
    list.push(Resource::Image(stage.image));
    list.push(Resource::Memory(stage.memory));
    assert(list@ =~= seq![Resource::Image(stage.image), Resource::Memory(stage.memory)]);
    list
}

} // verus!

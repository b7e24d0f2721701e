//! The order of the calls to the graphics device: which call comes next, what a refused one
//! is answered with, and what is given back then.

use vstd::prelude::*;

use crate::error::{plain_error, DetailView, Error, ErrorCode, ErrorView};
use crate::id::TraceId;
use crate::render::vulkan::{refusal, vk_result_name, vulkan_failure};

verus! {

/// Something of the device that has to be given back.
#[derive(Debug, Clone, Copy, PartialEq, Eq, Hash, Structural)]
pub enum DevicePart {
    Instance,
    Device,
    Image,
    Memory,
    Buffer,
    View,
    Sampler,
    Framebuffer,
    RenderPass,
    DescriptorLayout,
    PipelineLayout,
    Pipeline,
    DescriptorPool,
    CommandPool,
    Fence,
}

/// A call to the graphics device that may be refused.
#[derive(Debug, Clone, Copy, PartialEq, Eq, Hash, Structural)]
pub enum DeviceCall {
    CreateInstance,
    CreateDevice,
    EnumeratePhysicalDevices,
    EnumerateDeviceExtensions,
    RuntimeCreatesInstance,
    RuntimeCreatesDevice,
    WaitDeviceIdle,
    CreateImportedImage,
    QueryFdProperties,
    AllocateImported,
    BindImported,
    QueryChosenModifier,
    ExportFd,
    CreateProducerImage,
    AllocateProducer,
    BindProducer,
    CreateProbeImage,
    AllocateProbe,
    BindProbe,
    CreateUploadedImage,
    AllocateUploaded,
    BindUploaded,
    CreateView,
    CreateSampler,
    CreateStagingBuffer,
    AllocateStaging,
    BindStaging,
    MapStaging,
    CreateSampledTarget,
    AllocateSampledTarget,
    BindSampledTarget,
    CreateReadBackBuffer,
    AllocateReadBack,
    BindReadBack,
    MapReadBack,
    CreateTargetView,
    CreateFramebuffer,
    CreateRenderPass,
    CreateDescriptorLayout,
    CreatePipelineLayout,
    CreateShaderModule,
    CreatePipeline,
    CreateDescriptorPool,
    CreateCommandPool,
    AllocateCommandBuffers,
    CreateFence,
    CreateOneShotPool,
    BeginCommands,
    EndCommands,
    SubmitOneShot,
    WaitQueueIdle,
    WaitForFence,
    ResetFence,
    AllocateDescriptorSets,
    SubmitDrawing,
    WaitForDrawing,
    ResetDescriptorPool,
}

impl DeviceCall {
    /// What is said where the call is refused.
    pub open spec fn failure_text(self) -> Seq<char> {
        match self {
            DeviceCall::CreateInstance => "vkCreateInstance failed"@,
            DeviceCall::CreateDevice => "vkCreateDevice failed"@,
            DeviceCall::EnumeratePhysicalDevices => "vkEnumeratePhysicalDevices failed"@,
            DeviceCall::EnumerateDeviceExtensions => "vkEnumerateDeviceExtensionProperties failed"@,
            DeviceCall::RuntimeCreatesInstance => "the OpenXR runtime's vkCreateInstance failed"@,
            DeviceCall::RuntimeCreatesDevice => "the OpenXR runtime's vkCreateDevice failed"@,
            DeviceCall::WaitDeviceIdle => "vkDeviceWaitIdle failed"@,
            DeviceCall::CreateImportedImage => "vkCreateImage for the imported dma_buf failed"@,
            DeviceCall::QueryFdProperties => "vkGetMemoryFdPropertiesKHR failed"@,
            DeviceCall::AllocateImported => "vkAllocateMemory importing the dma_buf failed"@,
            DeviceCall::BindImported => "vkBindImageMemory for the imported dma_buf failed"@,
            DeviceCall::QueryChosenModifier => "vkGetImageDrmFormatModifierPropertiesEXT failed"@,
            DeviceCall::ExportFd => "vkGetMemoryFdKHR failed"@,
            DeviceCall::CreateProducerImage => "vkCreateImage for the measurement producer failed"@,
            DeviceCall::AllocateProducer => "vkAllocateMemory for the measurement producer failed"@,
            DeviceCall::BindProducer => "vkBindImageMemory for the measurement producer failed"@,
            DeviceCall::CreateProbeImage => "vkCreateImage for the producer side failed"@,
            DeviceCall::AllocateProbe => "vkAllocateMemory for the producer side failed"@,
            DeviceCall::BindProbe => "vkBindImageMemory for the producer side failed"@,
            DeviceCall::CreateUploadedImage => "vkCreateImage for the shm fallback failed"@,
            DeviceCall::AllocateUploaded => "vkAllocateMemory for the shm fallback failed"@,
            DeviceCall::BindUploaded => "vkBindImageMemory for the shm fallback failed"@,
            DeviceCall::CreateView => "vkCreateImageView failed"@,
            DeviceCall::CreateSampler => "vkCreateSampler failed"@,
            DeviceCall::CreateStagingBuffer => "vkCreateBuffer for the staging copy failed"@,
            DeviceCall::AllocateStaging => "vkAllocateMemory for the staging copy failed"@,
            DeviceCall::BindStaging => "vkBindBufferMemory failed"@,
            DeviceCall::MapStaging => "vkMapMemory failed"@,
            DeviceCall::CreateSampledTarget => "vkCreateImage for the read-back target failed"@,
            DeviceCall::AllocateSampledTarget => "vkAllocateMemory for the read-back target failed"@,
            DeviceCall::BindSampledTarget => "vkBindImageMemory for the read-back failed"@,
            DeviceCall::CreateReadBackBuffer => "vkCreateBuffer for the read-back failed"@,
            DeviceCall::AllocateReadBack => "vkAllocateMemory for the read-back failed"@,
            DeviceCall::BindReadBack => "vkBindBufferMemory for the read-back failed"@,
            DeviceCall::MapReadBack => "vkMapMemory for the read-back failed"@,
            DeviceCall::CreateTargetView => "vkCreateImageView for the swapchain image failed"@,
            DeviceCall::CreateFramebuffer => "vkCreateFramebuffer failed"@,
            DeviceCall::CreateRenderPass => "vkCreateRenderPass failed"@,
            DeviceCall::CreateDescriptorLayout => "vkCreateDescriptorSetLayout failed"@,
            DeviceCall::CreatePipelineLayout => "vkCreatePipelineLayout failed"@,
            DeviceCall::CreateShaderModule => "vkCreateShaderModule failed"@,
            DeviceCall::CreatePipeline => "vkCreateGraphicsPipelines failed"@,
            DeviceCall::CreateDescriptorPool => "vkCreateDescriptorPool failed"@,
            DeviceCall::CreateCommandPool => "vkCreateCommandPool failed"@,
            DeviceCall::AllocateCommandBuffers => "vkAllocateCommandBuffers failed"@,
            DeviceCall::CreateFence => "vkCreateFence failed"@,
            DeviceCall::CreateOneShotPool => "vkCreateCommandPool for a one-shot submit failed"@,
            DeviceCall::BeginCommands => "vkBeginCommandBuffer failed"@,
            DeviceCall::EndCommands => "vkEndCommandBuffer failed"@,
            DeviceCall::SubmitOneShot => "vkQueueSubmit for a one-shot submit failed"@,
            DeviceCall::WaitQueueIdle => "vkQueueWaitIdle failed"@,
            DeviceCall::WaitForFence => "vkWaitForFences failed"@,
            DeviceCall::ResetFence => "vkResetFences failed"@,
            DeviceCall::AllocateDescriptorSets => "vkAllocateDescriptorSets failed"@,
            DeviceCall::SubmitDrawing => "vkQueueSubmit failed"@,
            DeviceCall::WaitForDrawing => "vkWaitForFences after submit failed"@,
            DeviceCall::ResetDescriptorPool => "vkResetDescriptorPool failed"@,
        }
    }

    /// What is said where the call is refused.
    pub fn failure(self) -> (r: &'static str)
        ensures
            r@ == self.failure_text(),
    {
        match self {
            DeviceCall::CreateInstance => "vkCreateInstance failed",
            DeviceCall::CreateDevice => "vkCreateDevice failed",
            DeviceCall::EnumeratePhysicalDevices => "vkEnumeratePhysicalDevices failed",
            DeviceCall::EnumerateDeviceExtensions => "vkEnumerateDeviceExtensionProperties failed",
            DeviceCall::RuntimeCreatesInstance => "the OpenXR runtime's vkCreateInstance failed",
            DeviceCall::RuntimeCreatesDevice => "the OpenXR runtime's vkCreateDevice failed",
            DeviceCall::WaitDeviceIdle => "vkDeviceWaitIdle failed",
            DeviceCall::CreateImportedImage => "vkCreateImage for the imported dma_buf failed",
            DeviceCall::QueryFdProperties => "vkGetMemoryFdPropertiesKHR failed",
            DeviceCall::AllocateImported => "vkAllocateMemory importing the dma_buf failed",
            DeviceCall::BindImported => "vkBindImageMemory for the imported dma_buf failed",
            DeviceCall::QueryChosenModifier => "vkGetImageDrmFormatModifierPropertiesEXT failed",
            DeviceCall::ExportFd => "vkGetMemoryFdKHR failed",
            DeviceCall::CreateProducerImage => "vkCreateImage for the measurement producer failed",
            DeviceCall::AllocateProducer => "vkAllocateMemory for the measurement producer failed",
            DeviceCall::BindProducer => "vkBindImageMemory for the measurement producer failed",
            DeviceCall::CreateProbeImage => "vkCreateImage for the producer side failed",
            DeviceCall::AllocateProbe => "vkAllocateMemory for the producer side failed",
            DeviceCall::BindProbe => "vkBindImageMemory for the producer side failed",
            DeviceCall::CreateUploadedImage => "vkCreateImage for the shm fallback failed",
            DeviceCall::AllocateUploaded => "vkAllocateMemory for the shm fallback failed",
            DeviceCall::BindUploaded => "vkBindImageMemory for the shm fallback failed",
            DeviceCall::CreateView => "vkCreateImageView failed",
            DeviceCall::CreateSampler => "vkCreateSampler failed",
            DeviceCall::CreateStagingBuffer => "vkCreateBuffer for the staging copy failed",
            DeviceCall::AllocateStaging => "vkAllocateMemory for the staging copy failed",
            DeviceCall::BindStaging => "vkBindBufferMemory failed",
            DeviceCall::MapStaging => "vkMapMemory failed",
            DeviceCall::CreateSampledTarget => "vkCreateImage for the read-back target failed",
            DeviceCall::AllocateSampledTarget => "vkAllocateMemory for the read-back target failed",
            DeviceCall::BindSampledTarget => "vkBindImageMemory for the read-back failed",
            DeviceCall::CreateReadBackBuffer => "vkCreateBuffer for the read-back failed",
            DeviceCall::AllocateReadBack => "vkAllocateMemory for the read-back failed",
            DeviceCall::BindReadBack => "vkBindBufferMemory for the read-back failed",
            DeviceCall::MapReadBack => "vkMapMemory for the read-back failed",
            DeviceCall::CreateTargetView => "vkCreateImageView for the swapchain image failed",
            DeviceCall::CreateFramebuffer => "vkCreateFramebuffer failed",
            DeviceCall::CreateRenderPass => "vkCreateRenderPass failed",
            DeviceCall::CreateDescriptorLayout => "vkCreateDescriptorSetLayout failed",
            DeviceCall::CreatePipelineLayout => "vkCreatePipelineLayout failed",
            DeviceCall::CreateShaderModule => "vkCreateShaderModule failed",
            DeviceCall::CreatePipeline => "vkCreateGraphicsPipelines failed",
            DeviceCall::CreateDescriptorPool => "vkCreateDescriptorPool failed",
            DeviceCall::CreateCommandPool => "vkCreateCommandPool failed",
            DeviceCall::AllocateCommandBuffers => "vkAllocateCommandBuffers failed",
            DeviceCall::CreateFence => "vkCreateFence failed",
            DeviceCall::CreateOneShotPool => "vkCreateCommandPool for a one-shot submit failed",
            DeviceCall::BeginCommands => "vkBeginCommandBuffer failed",
            DeviceCall::EndCommands => "vkEndCommandBuffer failed",
            DeviceCall::SubmitOneShot => "vkQueueSubmit for a one-shot submit failed",
            DeviceCall::WaitQueueIdle => "vkQueueWaitIdle failed",
            DeviceCall::WaitForFence => "vkWaitForFences failed",
            DeviceCall::ResetFence => "vkResetFences failed",
            DeviceCall::AllocateDescriptorSets => "vkAllocateDescriptorSets failed",
            DeviceCall::SubmitDrawing => "vkQueueSubmit failed",
            DeviceCall::WaitForDrawing => "vkWaitForFences after submit failed",
            DeviceCall::ResetDescriptorPool => "vkResetDescriptorPool failed",
        }
    }

    /// What the call acquires.
    pub open spec fn part(self) -> Option<DevicePart> {
        match self {
            DeviceCall::CreateInstance => Some(DevicePart::Instance),
            DeviceCall::CreateDevice => Some(DevicePart::Device),
            DeviceCall::RuntimeCreatesInstance => Some(DevicePart::Instance),
            DeviceCall::RuntimeCreatesDevice => Some(DevicePart::Device),
            DeviceCall::CreateImportedImage => Some(DevicePart::Image),
            DeviceCall::AllocateImported => Some(DevicePart::Memory),
            DeviceCall::CreateProducerImage => Some(DevicePart::Image),
            DeviceCall::AllocateProducer => Some(DevicePart::Memory),
            DeviceCall::CreateProbeImage => Some(DevicePart::Image),
            DeviceCall::AllocateProbe => Some(DevicePart::Memory),
            DeviceCall::CreateUploadedImage => Some(DevicePart::Image),
            DeviceCall::AllocateUploaded => Some(DevicePart::Memory),
            DeviceCall::CreateView => Some(DevicePart::View),
            DeviceCall::CreateSampler => Some(DevicePart::Sampler),
            DeviceCall::CreateStagingBuffer => Some(DevicePart::Buffer),
            DeviceCall::AllocateStaging => Some(DevicePart::Memory),
            DeviceCall::CreateSampledTarget => Some(DevicePart::Image),
            DeviceCall::AllocateSampledTarget => Some(DevicePart::Memory),
            DeviceCall::CreateReadBackBuffer => Some(DevicePart::Buffer),
            DeviceCall::AllocateReadBack => Some(DevicePart::Memory),
            DeviceCall::CreateTargetView => Some(DevicePart::View),
            DeviceCall::CreateFramebuffer => Some(DevicePart::Framebuffer),
            DeviceCall::CreateRenderPass => Some(DevicePart::RenderPass),
            DeviceCall::CreateDescriptorLayout => Some(DevicePart::DescriptorLayout),
            DeviceCall::CreatePipelineLayout => Some(DevicePart::PipelineLayout),
            DeviceCall::CreatePipeline => Some(DevicePart::Pipeline),
            DeviceCall::CreateDescriptorPool => Some(DevicePart::DescriptorPool),
            DeviceCall::CreateCommandPool => Some(DevicePart::CommandPool),
            DeviceCall::CreateFence => Some(DevicePart::Fence),
            DeviceCall::CreateOneShotPool => Some(DevicePart::CommandPool),
            _ => None,
        }
    }

    /// What the call acquires.
    pub fn acquires(self) -> (r: Option<DevicePart>)
        ensures
            r == self.part(),
    {
        match self {
            DeviceCall::CreateInstance => Some(DevicePart::Instance),
            DeviceCall::CreateDevice => Some(DevicePart::Device),
            DeviceCall::RuntimeCreatesInstance => Some(DevicePart::Instance),
            DeviceCall::RuntimeCreatesDevice => Some(DevicePart::Device),
            DeviceCall::CreateImportedImage => Some(DevicePart::Image),
            DeviceCall::AllocateImported => Some(DevicePart::Memory),
            DeviceCall::CreateProducerImage => Some(DevicePart::Image),
            DeviceCall::AllocateProducer => Some(DevicePart::Memory),
            DeviceCall::CreateProbeImage => Some(DevicePart::Image),
            DeviceCall::AllocateProbe => Some(DevicePart::Memory),
            DeviceCall::CreateUploadedImage => Some(DevicePart::Image),
            DeviceCall::AllocateUploaded => Some(DevicePart::Memory),
            DeviceCall::CreateView => Some(DevicePart::View),
            DeviceCall::CreateSampler => Some(DevicePart::Sampler),
            DeviceCall::CreateStagingBuffer => Some(DevicePart::Buffer),
            DeviceCall::AllocateStaging => Some(DevicePart::Memory),
            DeviceCall::CreateSampledTarget => Some(DevicePart::Image),
            DeviceCall::AllocateSampledTarget => Some(DevicePart::Memory),
            DeviceCall::CreateReadBackBuffer => Some(DevicePart::Buffer),
            DeviceCall::AllocateReadBack => Some(DevicePart::Memory),
            DeviceCall::CreateTargetView => Some(DevicePart::View),
            DeviceCall::CreateFramebuffer => Some(DevicePart::Framebuffer),
            DeviceCall::CreateRenderPass => Some(DevicePart::RenderPass),
            DeviceCall::CreateDescriptorLayout => Some(DevicePart::DescriptorLayout),
            DeviceCall::CreatePipelineLayout => Some(DevicePart::PipelineLayout),
            DeviceCall::CreatePipeline => Some(DevicePart::Pipeline),
            DeviceCall::CreateDescriptorPool => Some(DevicePart::DescriptorPool),
            DeviceCall::CreateCommandPool => Some(DevicePart::CommandPool),
            DeviceCall::CreateFence => Some(DevicePart::Fence),
            DeviceCall::CreateOneShotPool => Some(DevicePart::CommandPool),
            _ => None,
        }
    }

    /// Whether the call belongs to the trial of a shared buffer, whose errors name the code
    /// alone.
    pub open spec fn in_trial(self) -> bool {
        self == DeviceCall::CreateProbeImage || self == DeviceCall::AllocateProbe || self
            == DeviceCall::BindProbe
    }

    /// The error of the call where the device refused it.
    pub open spec fn refusal_of(self, raw: i32) -> ErrorView {
        if self.in_trial() {
            plain_error(ErrorCode::HostRefused, self.failure_text()).with(
                "vk_result"@,
                DetailView::Int(raw as int),
            )
        } else {
            refusal(
                self.failure_text(),
                "vk_result"@,
                raw,
                "vk_result_name"@,
                vk_result_name(raw),
            )
        }
    }

    /// The error of the call, where the device refused it.
    pub fn refused(self, raw: i32) -> (r: Error)
        ensures
            r@ == self.refusal_of(raw),
    {
        match self {
            DeviceCall::CreateProbeImage | DeviceCall::AllocateProbe | DeviceCall::BindProbe =>
            Error::new(
                ErrorCode::HostRefused,
                self.failure(),
                TraceId::unattributed(),
            ).with_detail("vk_result", raw as i64),
            _ => vulkan_failure(self.failure(), raw),
        }
    }
}

/// What is done with the device in several calls.
#[derive(Debug, Clone, Copy, PartialEq, Eq, Hash, Structural)]
pub enum Procedure {
    /// A device of one's own.
    Standalone,
    /// A device that the runtime makes.
    ThroughRuntime,
    /// The import of a buffer.
    Import,
    /// A buffer of one's own that is handed out.
    Producer,
    /// A buffer of one's own that a trial hands out.
    ProbeProducer,
    /// A texture of copied pixels.
    Upload,
    /// A texture of an imported buffer.
    Wrap,
    /// Pixels into memory that the device copies from.
    Stage,
    /// An image to sample into.
    SampledTarget,
    /// Pixels into memory that the host reads.
    ReadBack,
    /// A framebuffer for a swapchain image.
    Target,
    /// A renderer.
    Renderer,
    /// Commands that run once.
    OneShot,
}

impl Procedure {
    /// The calls, in order.
    pub open spec fn script(self) -> Seq<DeviceCall> {
        match self {
            Procedure::Standalone => seq![
                DeviceCall::CreateInstance,
                DeviceCall::EnumeratePhysicalDevices,
                DeviceCall::EnumerateDeviceExtensions,
                DeviceCall::CreateDevice,
            ],
            Procedure::ThroughRuntime => seq![
                DeviceCall::RuntimeCreatesInstance,
                DeviceCall::EnumerateDeviceExtensions,
                DeviceCall::RuntimeCreatesDevice,
            ],
            Procedure::Import => seq![
                DeviceCall::CreateImportedImage,
                DeviceCall::QueryFdProperties,
                DeviceCall::AllocateImported,
                DeviceCall::BindImported,
            ],
            Procedure::Producer => seq![
                DeviceCall::CreateProducerImage,
                DeviceCall::AllocateProducer,
                DeviceCall::BindProducer,
            ],
            Procedure::ProbeProducer => seq![
                DeviceCall::CreateProbeImage,
                DeviceCall::AllocateProbe,
                DeviceCall::BindProbe,
            ],
            Procedure::Upload => seq![
                DeviceCall::CreateUploadedImage,
                DeviceCall::AllocateUploaded,
                DeviceCall::BindUploaded,
                DeviceCall::CreateView,
                DeviceCall::CreateSampler,
            ],
            Procedure::Wrap => seq![
                DeviceCall::CreateView,
                DeviceCall::CreateSampler,
            ],
            Procedure::Stage => seq![
                DeviceCall::CreateStagingBuffer,
                DeviceCall::AllocateStaging,
                DeviceCall::BindStaging,
                DeviceCall::MapStaging,
            ],
            Procedure::SampledTarget => seq![
                DeviceCall::CreateSampledTarget,
                DeviceCall::AllocateSampledTarget,
                DeviceCall::BindSampledTarget,
            ],
            Procedure::ReadBack => seq![
                DeviceCall::CreateReadBackBuffer,
                DeviceCall::AllocateReadBack,
                DeviceCall::BindReadBack,
                DeviceCall::MapReadBack,
            ],
            Procedure::Target => seq![
                DeviceCall::CreateTargetView,
                DeviceCall::CreateFramebuffer,
            ],
            Procedure::Renderer => seq![
                DeviceCall::CreateRenderPass,
                DeviceCall::CreateDescriptorLayout,
                DeviceCall::CreatePipelineLayout,
                DeviceCall::CreatePipeline,
                DeviceCall::CreateDescriptorPool,
                DeviceCall::CreateCommandPool,
                DeviceCall::AllocateCommandBuffers,
                DeviceCall::CreateFence,
            ],
            Procedure::OneShot => seq![
                DeviceCall::CreateOneShotPool,
                DeviceCall::AllocateCommandBuffers,
                DeviceCall::BeginCommands,
                DeviceCall::EndCommands,
                DeviceCall::SubmitOneShot,
                DeviceCall::WaitQueueIdle,
            ],
        }
    }

    /// The calls, in order.
    pub fn calls(self) -> (r: Vec<DeviceCall>)
        ensures
            r@ == self.script(),
    {
        let r = match self {
            Procedure::Standalone => vec![
                DeviceCall::CreateInstance,
                DeviceCall::EnumeratePhysicalDevices,
                DeviceCall::EnumerateDeviceExtensions,
                DeviceCall::CreateDevice,
            ],
            Procedure::ThroughRuntime => vec![
                DeviceCall::RuntimeCreatesInstance,
                DeviceCall::EnumerateDeviceExtensions,
                DeviceCall::RuntimeCreatesDevice,
            ],
            Procedure::Import => vec![
                DeviceCall::CreateImportedImage,
                DeviceCall::QueryFdProperties,
                DeviceCall::AllocateImported,
                DeviceCall::BindImported,
            ],
            Procedure::Producer => vec![
                DeviceCall::CreateProducerImage,
                DeviceCall::AllocateProducer,
                DeviceCall::BindProducer,
            ],
            Procedure::ProbeProducer => vec![
                DeviceCall::CreateProbeImage,
                DeviceCall::AllocateProbe,
                DeviceCall::BindProbe,
            ],
            Procedure::Upload => vec![
                DeviceCall::CreateUploadedImage,
                DeviceCall::AllocateUploaded,
                DeviceCall::BindUploaded,
                DeviceCall::CreateView,
                DeviceCall::CreateSampler,
            ],
            Procedure::Wrap => vec![
                DeviceCall::CreateView,
                DeviceCall::CreateSampler,
            ],
            Procedure::Stage => vec![
                DeviceCall::CreateStagingBuffer,
                DeviceCall::AllocateStaging,
                DeviceCall::BindStaging,
                DeviceCall::MapStaging,
            ],
            Procedure::SampledTarget => vec![
                DeviceCall::CreateSampledTarget,
                DeviceCall::AllocateSampledTarget,
                DeviceCall::BindSampledTarget,
            ],
            Procedure::ReadBack => vec![
                DeviceCall::CreateReadBackBuffer,
                DeviceCall::AllocateReadBack,
                DeviceCall::BindReadBack,
                DeviceCall::MapReadBack,
            ],
            Procedure::Target => vec![
                DeviceCall::CreateTargetView,
                DeviceCall::CreateFramebuffer,
            ],
            Procedure::Renderer => vec![
                DeviceCall::CreateRenderPass,
                DeviceCall::CreateDescriptorLayout,
                DeviceCall::CreatePipelineLayout,
                DeviceCall::CreatePipeline,
                DeviceCall::CreateDescriptorPool,
                DeviceCall::CreateCommandPool,
                DeviceCall::AllocateCommandBuffers,
                DeviceCall::CreateFence,
            ],
            Procedure::OneShot => vec![
                DeviceCall::CreateOneShotPool,
                DeviceCall::AllocateCommandBuffers,
                DeviceCall::BeginCommands,
                DeviceCall::EndCommands,
                DeviceCall::SubmitOneShot,
                DeviceCall::WaitQueueIdle,
            ],
        };
        assert(r@ =~= self.script());
        r
    }
}

/// What some calls acquired, in order.
pub open spec fn parts_of(calls: Seq<DeviceCall>) -> Seq<DevicePart>
    decreases calls.len(),
{
    if calls.len() == 0 {
        Seq::empty()
    } else {
        let rest = parts_of(calls.drop_last());
        match calls.last().part() {
            Some(part) => rest.push(part),
            None => rest,
        }
    }
}

/// Whether the last call made the memory of a staging copy reachable: then the copy itself is
/// all that is left.
pub open spec fn is_staged(granted: Seq<DeviceCall>) -> bool {
    granted.len() > 0 && granted.last() == DeviceCall::MapStaging
}

/// What has to be given back after some calls, and in which order: the last acquired first,
/// but the buffer of a staging copy before its memory once the pixels are staged.
pub open spec fn given_back(granted: Seq<DeviceCall>) -> Seq<DevicePart> {
    if is_staged(granted) {
        parts_of(granted)
    } else {
        parts_of(granted).reverse()
    }
}

/// A procedure under way.
#[derive(Debug)]
pub struct CallRun {
    made: Vec<DeviceCall>,
    left: Vec<DeviceCall>,
}

impl CallRun {
    /// The calls that were made and granted.
    pub closed spec fn granted(&self) -> Seq<DeviceCall> {
        self.made@
    }

    /// The calls that are to be made.
    pub closed spec fn remaining(&self) -> Seq<DeviceCall> {
        self.left@.reverse()
    }

    /// A procedure that begins.
    pub fn of(procedure: Procedure) -> (r: Self)
        ensures
            r.granted() == Seq::<DeviceCall>::empty(),
            r.remaining() == procedure.script(),
    {
        CallRun::over(procedure.calls())
    }

    /// Some calls, in order.
    pub fn over(calls: Vec<DeviceCall>) -> (r: Self)
        ensures
            r.granted() == Seq::<DeviceCall>::empty(),
            r.remaining() == calls@,
    {
        let mut left: Vec<DeviceCall> = Vec::new();
        let mut i: usize = calls.len();
        while i > 0
            invariant
                i <= calls@.len(),
                left@ == calls@.skip(i as int).reverse(),
            decreases i,
        {
            i = i - 1;
            left.push(calls[i]);
            assert(left@ =~= calls@.skip(i as int).reverse());
        }
        assert(left@.reverse() =~= calls@);
        CallRun { made: Vec::new(), left }
    }

    /// The call that comes next, if there is one.
    pub fn next_call(&self) -> (r: Option<DeviceCall>)
        ensures
            r == (if self.remaining().len() == 0 {
                None
            } else {
                Some(self.remaining()[0])
            }),
    {
        if self.left.len() == 0 {
            None
        } else {
            Some(self.left[self.left.len() - 1])
        }
    }

    /// The device answered the call that came next. A granted call is done; a refused one is
    /// the end of the procedure, with the error of that call.
    pub fn answered<T>(&mut self, answer: Result<T, i32>) -> (r: Result<T, Error>)
        requires
            old(self).remaining().len() > 0,
        ensures
            final(self).granted() + final(self).remaining() == old(self).granted() + old(
                self,
            ).remaining(),
            match answer {
                Ok(value) => {
                    &&& r == Ok::<T, Error>(value)
                    &&& final(self).granted() == old(self).granted().push(old(self).remaining()[0])
                    &&& final(self).remaining() == old(self).remaining().drop_first()
                },
                Err(raw) => {
                    &&& r is Err
                    &&& r->Err_0@ == old(self).remaining()[0].refusal_of(raw)
                    &&& final(self).granted() == old(self).granted()
                    &&& final(self).remaining() == old(self).remaining()
                },
            },
    {
        let last: usize = self.left.len() - 1;
        let call = self.left[last];
        assert(call == old(self).remaining()[0]);
        match answer {
            Ok(value) => {
                self.left.pop();
                self.made.push(call);
                assert(self.remaining() =~= old(self).remaining().drop_first());
                assert(self.granted() + self.remaining() =~= old(self).granted() + old(
                    self,
                ).remaining());
                Ok(value)
            },
            Err(raw) => Err(call.refused(raw)),
        }
    }

    /// The procedure is over and what it acquired belongs to somebody else: nothing is left
    /// to be done or given back.
    pub fn hand_over(&mut self)
        ensures
            final(self).granted() == Seq::<DeviceCall>::empty(),
            final(self).remaining() == Seq::<DeviceCall>::empty(),
    {
        self.made = Vec::new();
        self.left = Vec::new();
        assert(self.remaining() =~= Seq::<DeviceCall>::empty());
    }

    /// What has to be given back where the procedure ends here, in order. Nothing is left to
    /// be done or given back after it.
    pub fn give_back(&mut self) -> (r: Vec<DevicePart>)
        ensures
            r@ == given_back(old(self).granted()),
            final(self).granted() == Seq::<DeviceCall>::empty(),
            final(self).remaining() == Seq::<DeviceCall>::empty(),
    {
        let staged = match self.made.last() {
            Some(call) => *call == DeviceCall::MapStaging,
            None => false,
        };
        if staged {
            self.give_back_as_acquired()
        } else {
            self.give_back_reversed()
        }
    }

    fn give_back_as_acquired(&mut self) -> (r: Vec<DevicePart>)
        ensures
            r@ == parts_of(old(self).granted()),
            final(self).granted() == Seq::<DeviceCall>::empty(),
            final(self).remaining() == Seq::<DeviceCall>::empty(),
    {
        let mut order: Vec<DevicePart> = Vec::new();
        let mut i: usize = 0;
        while i < self.made.len()
            invariant
                i <= self.made.len(),
                *self == *old(self),
                order@ == parts_of(self.made@.take(i as int)),
            decreases self.made.len() - i,
        {
            assert(self.made@.take(i as int + 1).drop_last() =~= self.made@.take(i as int));
            match self.made[i].acquires() {
                Some(part) => order.push(part),
                None => {},
            }
            i = i + 1;
        }
        assert(self.made@.take(i as int) =~= self.made@);
        self.hand_over();
        order
    }

    fn give_back_reversed(&mut self) -> (r: Vec<DevicePart>)
        ensures
            r@ == parts_of(old(self).granted()).reverse(),
            final(self).granted() == Seq::<DeviceCall>::empty(),
            final(self).remaining() == Seq::<DeviceCall>::empty(),
    {
        let ghost all = self.made@;
        let mut order: Vec<DevicePart> = Vec::new();
        while self.made.len() > 0
            invariant
                self.made@.len() <= all.len(),
                self.made@ == all.take(self.made@.len() as int),
                order@ + parts_of(self.made@).reverse() == parts_of(all).reverse(),
            decreases self.made.len(),
        {
            let ghost before = self.made@;
            let ghost given = order@;
            match self.made.pop() {
                Some(call) => {
                    assert(before.drop_last() =~= self.made@);
                    match call.acquires() {
                        Some(part) => {
                            order.push(part);
                            assert(parts_of(before).reverse() =~= seq![part] + parts_of(
                                self.made@,
                            ).reverse());
                            assert(order@ + parts_of(self.made@).reverse() =~= given + parts_of(
                                before,
                            ).reverse());
                        },
                        None => {},
                    }
                },
                None => {},
            }
            assert(self.made@ =~= all.take(self.made@.len() as int));
        }
        assert(order@ =~= order@ + parts_of(self.made@).reverse());
        self.left = Vec::new();
        assert(self.made@ =~= Seq::<DeviceCall>::empty());
        assert(self.remaining() =~= Seq::<DeviceCall>::empty());
        order
    }
}

proof fn lemma_reversed_holds_the_same<R>(kept: Seq<R>)
    ensures
        kept.reverse().to_multiset() == kept.to_multiset(),
    decreases kept.len(),
{
    broadcast use vstd::seq_lib::group_to_multiset_ensures;

    if kept.len() > 0 {
        let rest = kept.drop_last();
        lemma_reversed_holds_the_same(rest);
        assert(kept.reverse() =~= seq![kept.last()] + rest.reverse());
        assert(kept =~= rest.push(kept.last()));
        assert(seq![kept.last()] =~= Seq::<R>::empty().push(kept.last()));
        vstd::seq_lib::lemma_multiset_commutative(seq![kept.last()], rest.reverse());
        vstd::seq_lib::lemma_multiset_commutative(rest, seq![kept.last()]);
        assert(rest.push(kept.last()) =~= rest + seq![kept.last()]);
    } else {
        assert(kept.reverse() =~= kept);
    }
}

/// Wherever a procedure ends, everything that it acquired is given back, once each, and
/// nothing else is.
pub proof fn law_everything_acquired_is_given_back(granted: Seq<DeviceCall>)
    ensures
        given_back(granted).to_multiset() == parts_of(granted).to_multiset(),
{
    lemma_reversed_holds_the_same(parts_of(granted));
}

/// A staging copy gives its buffer back before the memory once the pixels are staged, and the
/// memory before the buffer where it ends earlier.
pub proof fn law_staging_is_given_back_in_order(count: int)
    requires
        2 <= count <= 4,
    ensures
        given_back(Procedure::Stage.script().take(count)) == (if count == 4 {
            seq![DevicePart::Buffer, DevicePart::Memory]
        } else {
            seq![DevicePart::Memory, DevicePart::Buffer]
        }),
{
    reveal_with_fuel(parts_of, 5);
    let calls = Procedure::Stage.script().take(count);
    assert(parts_of(calls) =~= seq![DevicePart::Buffer, DevicePart::Memory]);
    assert(parts_of(calls).reverse() =~= seq![DevicePart::Memory, DevicePart::Buffer]);
}

/// No procedure acquires a part twice, however far it comes.
pub proof fn law_no_part_is_acquired_twice(procedure: Procedure, count: int)
    requires
        0 <= count <= procedure.script().len(),
    ensures
        parts_of(procedure.script().take(count)).no_duplicates(),
{
    lemma_parts_stay_in_order(procedure.script(), count);
    lemma_whole_procedure(procedure);
}

proof fn lemma_parts_stay_in_order(calls: Seq<DeviceCall>, count: int)
    requires
        0 <= count <= calls.len(),
    ensures
        parts_of(calls.take(count)).len() <= parts_of(calls).len(),
        parts_of(calls.take(count)) == parts_of(calls).take(
            parts_of(calls.take(count)).len() as int,
        ),
    decreases calls.len(),
{
    if count == calls.len() {
        assert(calls.take(count) =~= calls);
        assert(parts_of(calls).take(parts_of(calls).len() as int) =~= parts_of(calls));
    } else {
        let shorter = calls.drop_last();
        lemma_parts_stay_in_order(shorter, count);
        assert(shorter.take(count) =~= calls.take(count));
        let n = parts_of(calls.take(count)).len() as int;
        assert(parts_of(calls).take(n) =~= parts_of(shorter).take(n));
    }
}

/// Whether no two calls acquire the same part.
spec fn acquire_apart(calls: Seq<DeviceCall>) -> bool {
    forall|i: int, j: int|
        #![trigger calls[i].part(), calls[j].part()]
        0 <= i < j < calls.len() && calls[i].part() is Some ==> calls[i].part()
            != calls[j].part()
}

proof fn lemma_parts_are_apart(calls: Seq<DeviceCall>)
    requires
        acquire_apart(calls),
    ensures
        parts_of(calls).no_duplicates(),
        forall|k: int|
            0 <= k < parts_of(calls).len() ==> exists|i: int|
                0 <= i < calls.len() && #[trigger] calls[i].part() == Some(
                    #[trigger] parts_of(calls)[k],
                ),
    decreases calls.len(),
{
    if calls.len() > 0 {
        let shorter = calls.drop_last();
        assert(acquire_apart(shorter)) by {
            assert forall|i: int, j: int|
                #![trigger shorter[i].part(), shorter[j].part()]
                0 <= i < j < shorter.len() && shorter[i].part() is Some implies
                shorter[i].part() != shorter[j].part() by {
                assert(calls[i].part() != calls[j].part());
            }
        }
        lemma_parts_are_apart(shorter);
        assert forall|k: int| 0 <= k < parts_of(calls).len() implies exists|i: int|
            0 <= i < calls.len() && #[trigger] calls[i].part() == Some(
                #[trigger] parts_of(calls)[k],
            ) by {
            if k < parts_of(shorter).len() {
                let i = choose|i: int|
                    0 <= i < shorter.len() && #[trigger] shorter[i].part() == Some(
                        parts_of(shorter)[k],
                    );
                assert(calls[i].part() == Some(parts_of(calls)[k]));
            } else {
                assert(calls[calls.len() - 1].part() == Some(parts_of(calls)[k]));
            }
        }
    }
}

proof fn lemma_whole_procedure(procedure: Procedure)
    ensures
        parts_of(procedure.script()).no_duplicates(),
{
    assert(acquire_apart(procedure.script()));
    lemma_parts_are_apart(procedure.script());
}

/// The calls of drawing one view. Without a surface no descriptors are needed.
pub open spec fn draw_script(surfaces: nat) -> Seq<DeviceCall> {
    seq![DeviceCall::WaitForFence, DeviceCall::ResetFence] + (if surfaces == 0 {
        Seq::empty()
    } else {
        seq![DeviceCall::AllocateDescriptorSets]
    }) + seq![
        DeviceCall::BeginCommands,
        DeviceCall::EndCommands,
        DeviceCall::SubmitDrawing,
        DeviceCall::WaitForDrawing,
        DeviceCall::ResetDescriptorPool,
    ]
}

/// The calls of drawing one view. Without a surface no descriptors are needed.
pub fn draw_calls(surfaces: usize) -> (r: Vec<DeviceCall>)
    ensures
        r@ == draw_script(surfaces as nat),
{
    let mut calls: Vec<DeviceCall> = Vec::new();
    calls.push(DeviceCall::WaitForFence);
    calls.push(DeviceCall::ResetFence);
    if surfaces > 0 {
        calls.push(DeviceCall::AllocateDescriptorSets);
    }
    calls.push(DeviceCall::BeginCommands);
    calls.push(DeviceCall::EndCommands);
    calls.push(DeviceCall::SubmitDrawing);
    calls.push(DeviceCall::WaitForDrawing);
    calls.push(DeviceCall::ResetDescriptorPool);
    assert(calls@ =~= draw_script(surfaces as nat));
    calls
}

} // verus!

//! The buffers that clients submit, and who takes them.

use std::marker::PhantomData;

use vstd::prelude::*;

use crate::compositor::window::WindowId;
use crate::error::{done_view, Error, ErrorView};
use crate::frame::PixelFormat;
use crate::id::IdView;
use crate::render::dmabuf::{code_of, DrmFormat, DrmModifier};

verus! {

/// How a client shares its pixels.
#[derive(Debug, Clone, Copy, PartialEq, Eq, Hash, Structural)]
pub enum ClientBufferKind {
    Shm,
    Dmabuf,
}

impl ClientBufferKind {
    /// The spelling of the kind.
    pub open spec fn name(self) -> Seq<char> {
        match self {
            ClientBufferKind::Shm => "shm"@,
            ClientBufferKind::Dmabuf => "dmabuf"@,
        }
    }

    /// The spelling of the kind.
    pub fn as_str(self) -> (r: &'static str)
        ensures
            r@ == self.name(),
    {
        match self {
            ClientBufferKind::Shm => "shm",
            ClientBufferKind::Dmabuf => "dmabuf",
        }
    }
}

/// The number of an arrangement that is not told.
pub const DRM_MODIFIER_UNTOLD: u64 = 0x00ff_ffff_ffff_ffff;

/// The layouts in which clients are told that they may share buffers: with and without a
/// fourth channel, each with the arrangement left open and row after row.
pub fn default_dmabuf_formats() -> (r: Vec<(DrmFormat, DrmModifier)>)
    ensures
        r@.len() == 4,
        forall|i: int|
            0 <= i < 4 ==> {
                &&& (#[trigger] r@[i]).0.code() == code_of(
                    if i < 2 {
                        PixelFormat::Argb8888
                    } else {
                        PixelFormat::Xrgb8888
                    },
                )
                &&& r@[i].1.value() == (if i % 2 == 0 {
                    DRM_MODIFIER_UNTOLD
                } else {
                    0
                })
            },
{
    let untold = DrmModifier::from_u64(DRM_MODIFIER_UNTOLD);
    vec![
        (DrmFormat::argb8888(), untold),
        (DrmFormat::argb8888(), DrmModifier::linear()),
        (DrmFormat::xrgb8888(), untold),
        (DrmFormat::xrgb8888(), DrmModifier::linear()),
    ]
}

/// A buffer in shared memory.
#[derive(Debug, Clone, Copy)]
pub struct ShmBufferView<'a> {
    pub wl_shm_format: u32,
    pub width_px: i32,
    pub height_px: i32,
    pub stride_bytes: i32,
    pub offset_bytes: i32,
    pub bytes: &'a [u8],
}

/// A buffer of the graphics device, described.
#[derive(Debug, Clone, Copy, PartialEq, Eq, Structural)]
pub struct DmabufHandoff {
    pub fourcc: u32,
    pub modifier: u64,
    pub width_px: i32,
    pub height_px: i32,
    pub plane_count: usize,
}

/// A buffer that was handed over, and whether it was taken.
pub enum ImportView {
    Shm {
        window: IdView,
        wl_shm_format: u32,
        width_px: i32,
        height_px: i32,
        stride_bytes: i32,
        offset_bytes: i32,
        bytes: Seq<u8>,
        outcome: Result<(), ErrorView>,
    },
    Dmabuf { window: Option<IdView>, handoff: DmabufHandoff, outcome: Result<(), ErrorView> },
}

/// A buffer in shared memory that was handed over.
pub open spec fn shm_import(
    window: IdView,
    view: ShmBufferView<'_>,
    outcome: Result<(), ErrorView>,
) -> ImportView {
    ImportView::Shm {
        window,
        wl_shm_format: view.wl_shm_format,
        width_px: view.width_px,
        height_px: view.height_px,
        stride_bytes: view.stride_bytes,
        offset_bytes: view.offset_bytes,
        bytes: view.bytes@,
        outcome,
    }
}

/// Takes the buffers that clients submit.
pub trait ClientTextureImporter {
    /// What the host knows a buffer of the graphics device by.
    type Dmabuf;

    /// The buffers that were handed over so far, in order.
    open spec fn imports(&self) -> Seq<ImportView> {
        arbitrary()
    }

    fn import_shm(&mut self, window: &WindowId, view: ShmBufferView<'_>) -> (r: Result<(), Error>)
        ensures
            final(self).imports() == old(self).imports().push(
                shm_import(window@, view, done_view(r)),
            ),
    ;

    fn import_dmabuf(
        &mut self,
        window: Option<&WindowId>,
        handoff: DmabufHandoff,
        dmabuf: &Self::Dmabuf,
    ) -> (r: Result<(), Error>)
        ensures
            final(self).imports() == old(self).imports().push(
                ImportView::Dmabuf {
                    window: borrowed_name(window),
                    handoff,
                    outcome: done_view(r),
                },
            ),
    ;
}

/// The name of a window, where there is one.
pub open spec fn window_name(window: Option<WindowId>) -> Option<IdView> {
    match window {
        Some(w) => Some(w@),
        None => None,
    }
}

/// The name of a window, where there is one.
pub open spec fn borrowed_name(window: Option<&WindowId>) -> Option<IdView> {
    match window {
        Some(w) => Some(w@),
        None => None,
    }
}

/// The window and the kind of a buffer that was handed over.
pub open spec fn kind_of(import: ImportView) -> (Option<IdView>, ClientBufferKind) {
    match import {
        ImportView::Shm { window, .. } => (Some(window), ClientBufferKind::Shm),
        ImportView::Dmabuf { window, .. } => (window, ClientBufferKind::Dmabuf),
    }
}

/// The windows and kinds of the buffers that were handed over, in order.
pub open spec fn kinds_of(imports: Seq<ImportView>) -> Seq<(Option<IdView>, ClientBufferKind)> {
    Seq::new(imports.len(), |i: int| kind_of(imports[i]))
}

/// The descriptions of the graphics buffers among those that were handed over, in order.
pub open spec fn handoffs_of(imports: Seq<ImportView>) -> Seq<DmabufHandoff>
    decreases imports.len(),
{
    if imports.len() == 0 {
        Seq::empty()
    } else {
        match imports.last() {
            ImportView::Shm { .. } => handoffs_of(imports.drop_last()),
            ImportView::Dmabuf { handoff, .. } => handoffs_of(imports.drop_last()).push(handoff),
        }
    }
}

/// Whether a buffer that was handed over was taken.
pub open spec fn was_taken(import: ImportView) -> bool {
    match import {
        ImportView::Shm { outcome, .. } => outcome is Ok,
        ImportView::Dmabuf { outcome, .. } => outcome is Ok,
    }
}

/// A buffer that was taken. Of one in shared memory only the window and the kind are kept.
enum Taken {
    Shm { window: WindowId, rest: Ghost<ImportView> },
    Dmabuf { window: Option<WindowId>, handoff: DmabufHandoff },
}

/// What was handed over as a buffer that was taken.
spec fn taken_import(taken: Taken) -> ImportView {
    match taken {
        Taken::Shm { window, rest } => ImportView::Shm {
            window: window@,
            wl_shm_format: rest@->wl_shm_format,
            width_px: rest@->width_px,
            height_px: rest@->height_px,
            stride_bytes: rest@->stride_bytes,
            offset_bytes: rest@->offset_bytes,
            bytes: rest@->bytes,
            outcome: Ok(()),
        },
        Taken::Dmabuf { window, handoff } => ImportView::Dmabuf {
            window: window_name(window),
            handoff,
            outcome: Ok(()),
        },
    }
}

/// Takes every buffer, and remembers what it took. `D` is what the host knows a buffer of the
/// graphics device by; nothing of it is kept.
pub struct RecordingImporter<D> {
    taken: Vec<Taken>,
    handle: PhantomData<D>,
}

/// What a row of remembered buffers holds.
pub open spec fn seen_views(seen: Seq<(Option<WindowId>, ClientBufferKind)>) -> Seq<
    (Option<IdView>, ClientBufferKind),
> {
    Seq::new(seen.len(), |i: int| (window_name(seen[i].0), seen[i].1))
}

impl<D> RecordingImporter<D> {
    /// An importer that took nothing yet.
    pub fn new() -> (r: Self)
        ensures
            r.imports() == Seq::<ImportView>::empty(),
    {
        let r = RecordingImporter { taken: Vec::new(), handle: PhantomData };
        assert(r.imports() =~= Seq::<ImportView>::empty());
        r
    }

    /// The windows and kinds of the buffers so far, in order.
    pub fn seen(&self) -> (r: Vec<(Option<WindowId>, ClientBufferKind)>)
        ensures
            seen_views(r@) == kinds_of(self.imports()),
    {
        let mut seen: Vec<(Option<WindowId>, ClientBufferKind)> = Vec::new();
        let mut i: usize = 0;
        while i < self.taken.len()
            invariant
                i <= self.taken.len(),
                seen_views(seen@) =~= kinds_of(self.imports()).take(i as int),
            decreases self.taken.len() - i,
        {
            let entry = match &self.taken[i] {
                Taken::Shm { window, .. } => (Some(window.clone()), ClientBufferKind::Shm),
                Taken::Dmabuf { window, .. } => {
                    let owned = match window {
                        Some(w) => Some(w.clone()),
                        None => None,
                    };
                    (owned, ClientBufferKind::Dmabuf)
                },
            };
            let ghost view = (window_name(entry.0), entry.1);
            assert(view == kinds_of(self.imports())[i as int]);
            let ghost earlier = seen@;
            seen.push(entry);
            assert(seen_views(seen@) =~= seen_views(earlier).push(view));
            i = i + 1;
        }
        assert(kinds_of(self.imports()).take(i as int) =~= kinds_of(self.imports()));
        seen
    }

    /// The descriptions of the graphics buffers so far, in order.
    pub fn dmabufs(&self) -> (r: Vec<DmabufHandoff>)
        ensures
            r@ == handoffs_of(self.imports()),
    {
        let ghost all = self.imports();
        let mut described: Vec<DmabufHandoff> = Vec::new();
        let mut i: usize = 0;
        while i < self.taken.len()
            invariant
                i <= self.taken.len(),
                all == self.imports(),
                all.len() == self.taken.len(),
                described@ == handoffs_of(all.take(i as int)),
            decreases self.taken.len() - i,
        {
            proof {
                assert(all.take(i as int + 1).drop_last() =~= all.take(i as int));
                assert(all.take(i as int + 1).last() == taken_import(self.taken@[i as int]));
            }
            if let Taken::Dmabuf { handoff, .. } = &self.taken[i] {
                described.push(*handoff);
            }
            i = i + 1;
        }
        assert(all.take(i as int) =~= all);
        described
    }

    /// How many buffers there were so far.
    pub fn count(&self) -> (r: usize)
        ensures
            r == self.imports().len(),
    {
        self.taken.len()
    }
}

impl<D> ClientTextureImporter for RecordingImporter<D> {
    type Dmabuf = D;

    closed spec fn imports(&self) -> Seq<ImportView> {
        Seq::new(self.taken@.len(), |i: int| taken_import(self.taken@[i]))
    }

    fn import_shm(&mut self, window: &WindowId, view: ShmBufferView<'_>) -> (r: Result<(), Error>)
        ensures
            r is Ok,
    {
        let ghost import = shm_import(window@, view, Ok(()));
        self.taken.push(Taken::Shm { window: window.clone(), rest: Ghost(import) });
        assert(self.imports() =~= old(self).imports().push(import));
        Ok(())
    }

    fn import_dmabuf(
        &mut self,
        window: Option<&WindowId>,
        handoff: DmabufHandoff,
        dmabuf: &D,
    ) -> (r: Result<(), Error>)
        ensures
            r is Ok,
    {
        let owned = match window {
            Some(w) => Some(w.clone()),
            None => None,
        };
        self.taken.push(Taken::Dmabuf { window: owned, handoff });
        assert(self.imports() =~= old(self).imports().push(
            ImportView::Dmabuf { window: borrowed_name(window), handoff, outcome: Ok(()) },
        ));
        Ok(())
    }
}

/// How many of the buffers that were handed over are of the graphics device.
pub open spec fn graphics_count(imports: Seq<ImportView>) -> nat {
    imports.filter(|import: ImportView| import is Dmabuf).len()
}

proof fn lemma_handoff_count(imports: Seq<ImportView>)
    ensures
        handoffs_of(imports).len() == graphics_count(imports),
    decreases imports.len(),
{
    reveal(Seq::filter);
    if imports.len() > 0 {
        lemma_handoff_count(imports.drop_last());
    }
}

/// After any row of imports, however they came, the importer has refused none, knows each of
/// them by its window and kind, and has described each graphics buffer once.
pub proof fn law_recording_importer_counts_every_import<D>(importer: RecordingImporter<D>)
    ensures
        kinds_of(importer.imports()).len() == importer.imports().len(),
        handoffs_of(importer.imports()).len() == graphics_count(importer.imports()),
        forall|i: int|
            0 <= i < importer.imports().len() ==> was_taken(#[trigger] importer.imports()[i]),
{
    lemma_handoff_count(importer.imports());
}

} // verus!

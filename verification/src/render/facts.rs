//! What is counted of the frames that were drawn.

use vstd::prelude::*;

use crate::json::{array_of, JsonFields, JsonValue, JsonView};

verus! {

/// How the pixels of a texture came.
#[derive(Debug, Clone, Copy, PartialEq, Eq, Hash, Structural)]
pub enum TextureRoute {
    /// As a buffer of the graphics device.
    Dmabuf,
    /// Through memory that was copied.
    Shm,
}

impl TextureRoute {
    /// The spelling of the route.
    pub open spec fn name(self) -> Seq<char> {
        match self {
            TextureRoute::Dmabuf => "dmabuf"@,
            TextureRoute::Shm => "shm"@,
        }
    }

    /// The spelling of the route.
    pub fn as_str(self) -> (r: &'static str)
        ensures
            r@ == self.name(),
    {
        match self {
            TextureRoute::Dmabuf => "dmabuf",
            TextureRoute::Shm => "shm",
        }
    }
}

/// How many of the routes are `route`.
pub open spec fn route_count(routes: Seq<TextureRoute>, route: TextureRoute) -> nat
    decreases routes.len(),
{
    if routes.len() == 0 {
        0
    } else {
        route_count(routes.drop_last(), route) + if routes.last() == route {
            1nat
        } else {
            0nat
        }
    }
}

proof fn lemma_routes_only_grow(routes: Seq<TextureRoute>, count: int, route: TextureRoute)
    requires
        0 <= count <= routes.len(),
    ensures
        route_count(routes.take(count), route) <= route_count(routes, route),
    decreases routes.len(),
{
    if count < routes.len() {
        lemma_routes_only_grow(routes.drop_last(), count, route);
        assert(routes.drop_last().take(count) =~= routes.take(count));
    } else {
        assert(routes.take(count) =~= routes);
    }
}

/// Every route is one or the other.
pub proof fn law_routes_are_one_or_the_other(routes: Seq<TextureRoute>)
    ensures
        route_count(routes, TextureRoute::Dmabuf) + route_count(routes, TextureRoute::Shm)
            == routes.len(),
    decreases routes.len(),
{
    if routes.len() > 0 {
        law_routes_are_one_or_the_other(routes.drop_last());
    }
}

/// What is counted of the frames that were drawn.
#[derive(Debug)]
pub struct RenderFacts {
    pub frames_submitted: usize,
    pub frames_skipped: usize,
    pub frames_with_surface: usize,
    pub surface_draws: usize,
    pub dmabuf_draws: usize,
    pub shm_draws: usize,
    pub black_clears: usize,
    pub swapchains_created: usize,
    pub swapchain_image_counts: Vec<u32>,
    pub swapchain_extent: Option<(u32, u32)>,
    pub swapchain_format: Option<u32>,
}

/// The numbers as JSON values.
pub open spec fn count_values(counts: Seq<u32>) -> Seq<JsonView> {
    Seq::new(counts.len(), |i: int| JsonView::Int(counts[i] as int))
}

impl RenderFacts {
    /// Nothing counted.
    pub fn new() -> (r: Self)
        ensures
            r.frames_submitted == 0,
            r.frames_skipped == 0,
            r.frames_with_surface == 0,
            r.surface_draws == 0,
            r.dmabuf_draws == 0,
            r.shm_draws == 0,
            r.black_clears == 0,
            r.swapchains_created == 0,
            r.swapchain_image_counts@.len() == 0,
            r.swapchain_extent is None,
            r.swapchain_format is None,
    {
        RenderFacts {
            frames_submitted: 0,
            frames_skipped: 0,
            frames_with_surface: 0,
            surface_draws: 0,
            dmabuf_draws: 0,
            shm_draws: 0,
            black_clears: 0,
            swapchains_created: 0,
            swapchain_image_counts: Vec::new(),
            swapchain_extent: None,
            swapchain_format: None,
        }
    }

    /// The fields that are always there.
    pub open spec fn counted_fields(self) -> Seq<(Seq<char>, JsonView)> {
        seq![
            ("frames_submitted"@, JsonView::Int(self.frames_submitted as i64 as int)),
            ("frames_skipped"@, JsonView::Int(self.frames_skipped as i64 as int)),
            ("frames_with_surface"@, JsonView::Int(self.frames_with_surface as i64 as int)),
            ("surface_draws"@, JsonView::Int(self.surface_draws as i64 as int)),
            ("dmabuf_draws"@, JsonView::Int(self.dmabuf_draws as i64 as int)),
            ("shm_draws"@, JsonView::Int(self.shm_draws as i64 as int)),
            ("black_clears"@, JsonView::Int(self.black_clears as i64 as int)),
            ("swapchains_created"@, JsonView::Int(self.swapchains_created as i64 as int)),
            (
                "swapchain_image_counts"@,
                JsonView::Array(count_values(self.swapchain_image_counts@)),
            ),
        ]
    }

    /// The fields of [`RenderFacts::to_json`]: extent and format only once they are known.
    pub open spec fn fields(self) -> Seq<(Seq<char>, JsonView)> {
        self.counted_fields() + (match self.swapchain_extent {
            Some((w, h)) => seq![
                ("swapchain_width"@, JsonView::Int(w as int)),
                ("swapchain_height"@, JsonView::Int(h as int)),
            ],
            None => Seq::empty(),
        }) + (match self.swapchain_format {
            Some(f) => seq![("swapchain_format"@, JsonView::Int(f as int))],
            None => Seq::empty(),
        })
    }

    /// What was counted, as JSON.
    pub fn to_json(&self) -> (r: JsonValue)
        ensures
            r@ == JsonView::Object(self.fields()),
    {
        let mut counts: Vec<JsonValue> = Vec::new();
        let mut i: usize = 0;
        while i < self.swapchain_image_counts.len()
            invariant
                i <= self.swapchain_image_counts.len(),
                counts@.len() == i,
                forall|j: int|
                    0 <= j < i ==> (#[trigger] counts@[j])@ == JsonView::Int(
                        self.swapchain_image_counts@[j] as int,
                    ),
            decreases self.swapchain_image_counts.len() - i,
        {
            counts.push(JsonValue::number(self.swapchain_image_counts[i] as i64));
            i = i + 1;
        }
        assert(Seq::new(counts@.len(), |j: int| counts@[j]@) =~= count_values(
            self.swapchain_image_counts@,
        ));
        let mut fields = JsonFields::new().with(
            "frames_submitted",
            JsonValue::number(self.frames_submitted as i64),
        ).with("frames_skipped", JsonValue::number(self.frames_skipped as i64)).with(
            "frames_with_surface",
            JsonValue::number(self.frames_with_surface as i64),
        ).with("surface_draws", JsonValue::number(self.surface_draws as i64)).with(
            "dmabuf_draws",
            JsonValue::number(self.dmabuf_draws as i64),
        ).with("shm_draws", JsonValue::number(self.shm_draws as i64)).with(
            "black_clears",
            JsonValue::number(self.black_clears as i64),
        ).with("swapchains_created", JsonValue::number(self.swapchains_created as i64)).with(
            "swapchain_image_counts",
            array_of(counts),
        );
        assert(fields@ =~= self.counted_fields());
        if let Some((width, height)) = self.swapchain_extent {
            fields = fields.with("swapchain_width", JsonValue::number(width as i64)).with(
                "swapchain_height",
                JsonValue::number(height as i64),
            );
        }
        if let Some(format) = self.swapchain_format {
            fields = fields.with("swapchain_format", JsonValue::number(format as i64));
        }
        assert(fields@ =~= self.fields());
        fields.into_object()
    }

    /// Whether a frame with the given surfaces and views can still be counted.
    pub open spec fn has_room(self, surfaces: Seq<TextureRoute>, views: int) -> bool {
        &&& self.frames_submitted < usize::MAX
        &&& surfaces.len() > 0 ==> self.frames_with_surface < usize::MAX
        &&& self.black_clears + views <= usize::MAX
        &&& self.surface_draws + surfaces.len() * views <= usize::MAX
        &&& self.dmabuf_draws + route_count(surfaces, TextureRoute::Dmabuf) * views <= usize::MAX
        &&& self.shm_draws + route_count(surfaces, TextureRoute::Shm) * views <= usize::MAX
    }

    /// Counts a frame that was submitted: every view is cleared to black, and every surface
    /// is drawn in every view.
    pub fn record_submit(&mut self, surfaces: &[TextureRoute], views: usize)
        requires
            old(self).has_room(surfaces@, views as int),
        ensures
            final(self).frames_submitted == old(self).frames_submitted + 1,
            final(self).frames_with_surface == old(self).frames_with_surface + if surfaces@.len()
                > 0 {
                1int
            } else {
                0int
            },
            final(self).black_clears == old(self).black_clears + views,
            final(self).surface_draws == old(self).surface_draws + surfaces@.len() * views,
            final(self).dmabuf_draws == old(self).dmabuf_draws + route_count(
                surfaces@,
                TextureRoute::Dmabuf,
            ) * views,
            final(self).shm_draws == old(self).shm_draws + route_count(
                surfaces@,
                TextureRoute::Shm,
            ) * views,
            final(self).frames_skipped == old(self).frames_skipped,
            final(self).swapchains_created == old(self).swapchains_created,
            final(self).swapchain_image_counts == old(self).swapchain_image_counts,
            final(self).swapchain_extent == old(self).swapchain_extent,
            final(self).swapchain_format == old(self).swapchain_format,
    {
        self.frames_submitted = self.frames_submitted + 1;
        self.black_clears = self.black_clears + views;
        if surfaces.len() > 0 {
            self.frames_with_surface = self.frames_with_surface + 1;
        }
        let ghost base = *self;
        let mut i: usize = 0;
        while i < surfaces.len()
            invariant
                i <= surfaces.len(),
                old(self).has_room(surfaces@, views as int),
                base.surface_draws == old(self).surface_draws,
                base.dmabuf_draws == old(self).dmabuf_draws,
                base.shm_draws == old(self).shm_draws,
                self.surface_draws == base.surface_draws + i * views,
                self.dmabuf_draws == base.dmabuf_draws + route_count(
                    surfaces@.take(i as int),
                    TextureRoute::Dmabuf,
                ) * views,
                self.shm_draws == base.shm_draws + route_count(
                    surfaces@.take(i as int),
                    TextureRoute::Shm,
                ) * views,
                self.frames_submitted == base.frames_submitted,
                self.frames_with_surface == base.frames_with_surface,
                self.black_clears == base.black_clears,
                self.frames_skipped == base.frames_skipped,
                self.swapchains_created == base.swapchains_created,
                self.swapchain_image_counts == base.swapchain_image_counts,
                self.swapchain_extent == base.swapchain_extent,
                self.swapchain_format == base.swapchain_format,
            decreases surfaces.len() - i,
        {
            let ghost done = surfaces@.take(i as int + 1);
            let ghost dmabufs = route_count(surfaces@.take(i as int), TextureRoute::Dmabuf) as int;
            let ghost shms = route_count(surfaces@.take(i as int), TextureRoute::Shm) as int;
            proof {
                assert(done.drop_last() =~= surfaces@.take(i as int));
                assert(done.last() == surfaces@[i as int]);
                lemma_routes_only_grow(surfaces@, i + 1, TextureRoute::Dmabuf);
                lemma_routes_only_grow(surfaces@, i + 1, TextureRoute::Shm);
                let all_dmabufs = route_count(surfaces@, TextureRoute::Dmabuf) as int;
                let all_shms = route_count(surfaces@, TextureRoute::Shm) as int;
                assert((i + 1) * views == i * views + views) by (nonlinear_arith);
                assert((i + 1) * views <= surfaces@.len() * views) by (nonlinear_arith)
                    requires
                        i + 1 <= surfaces@.len(),
                        views >= 0,
                ;
                assert((dmabufs + 1) * views == dmabufs * views + views) by (nonlinear_arith);
                assert((shms + 1) * views == shms * views + views) by (nonlinear_arith);
                if surfaces@[i as int] == TextureRoute::Dmabuf {
                    assert((dmabufs + 1) * views <= all_dmabufs * views) by (nonlinear_arith)
                        requires
                            dmabufs + 1 <= all_dmabufs,
                            views >= 0,
                    ;
                } else {
                    assert((shms + 1) * views <= all_shms * views) by (nonlinear_arith)
                        requires
                            shms + 1 <= all_shms,
                            views >= 0,
                    ;
                }
            }
            self.surface_draws = self.surface_draws + views;
            match surfaces[i] {
                TextureRoute::Dmabuf => {
                    self.dmabuf_draws = self.dmabuf_draws + views;
                },
                TextureRoute::Shm => {
                    self.shm_draws = self.shm_draws + views;
                },
            }
            i = i + 1;
        }
        assert(surfaces@.take(i as int) =~= surfaces@);
    }

    /// Counts a frame that was closed without a layer.
    pub fn record_skip(&mut self)
        requires
            old(self).frames_skipped < usize::MAX,
        ensures
            *final(self) == (RenderFacts {
                frames_skipped: (old(self).frames_skipped + 1) as usize,
                ..*old(self)
            }),
    {
        self.frames_skipped = self.frames_skipped + 1;
    }

    /// Counts a swapchain and its images.
    pub fn record_swapchain(&mut self, image_count: u32)
        requires
            old(self).swapchains_created < usize::MAX,
        ensures
            final(self).swapchains_created == old(self).swapchains_created + 1,
            final(self).swapchain_image_counts@ == old(self).swapchain_image_counts@.push(
                image_count,
            ),
            final(self).frames_submitted == old(self).frames_submitted,
            final(self).frames_skipped == old(self).frames_skipped,
            final(self).frames_with_surface == old(self).frames_with_surface,
            final(self).surface_draws == old(self).surface_draws,
            final(self).dmabuf_draws == old(self).dmabuf_draws,
            final(self).shm_draws == old(self).shm_draws,
            final(self).black_clears == old(self).black_clears,
            final(self).swapchain_extent == old(self).swapchain_extent,
            final(self).swapchain_format == old(self).swapchain_format,
    {
        self.swapchains_created = self.swapchains_created + 1;
        self.swapchain_image_counts.push(image_count);
    }
}

/// The draws of a submitted frame are those of its two routes.
pub proof fn law_draws_are_those_of_the_routes(routes: Seq<TextureRoute>, views: int)
    ensures
        routes.len() * views == route_count(routes, TextureRoute::Dmabuf) * views + route_count(
            routes,
            TextureRoute::Shm,
        ) * views,
{
    law_routes_are_one_or_the_other(routes);
    let d = route_count(routes, TextureRoute::Dmabuf) as int;
    let s = route_count(routes, TextureRoute::Shm) as int;
    assert((d + s) * views == d * views + s * views) by (nonlinear_arith);
}

} // verus!

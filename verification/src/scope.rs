//! What the first version is, and what it leaves out.

use vstd::prelude::*;

use crate::error::{plain_error, DetailView, Error, ErrorCode};
use crate::id::TraceId;

verus! {

/// The platform that the environment runs on.
#[derive(Debug, Clone, Copy, PartialEq, Eq, Hash, Structural)]
pub enum HostPlatform {
    Linux,
}

/// What is delivered.
#[derive(Debug, Clone, Copy, PartialEq, Eq, Hash, Structural)]
pub enum Deliverable {
    SelfBuiltVrWorkEnvironment,
}

/// The head-mounted display.
#[derive(Debug, Clone, Copy, PartialEq, Eq, Hash, Structural)]
pub enum Hmd {
    Quest3,
}

impl Hmd {
    /// The spelling of the device.
    pub fn as_str(self) -> (r: &'static str)
        ensures
            self == Hmd::Quest3 ==> r@ == "quest_3"@,
    {
        match self {
            Hmd::Quest3 => "quest_3",
        }
    }
}

/// The background of the virtual space. It is black.
#[derive(Debug, Clone, Copy, PartialEq, Eq, Hash, Structural)]
pub enum Background {
    Black,
}

impl Background {
    /// The clear colour as whole parts of full intensity: red, green, blue, opacity.
    pub fn clear_color_parts(self) -> (r: (u8, u8, u8, u8))
        ensures
            r == (0u8, 0u8, 0u8, 1u8),
    {
        match self {
            Background::Black => (0, 0, 0, 1),
        }
    }
}

/// Whether the Linux display is there.
#[derive(Debug, Clone, Copy, PartialEq, Eq, Hash, Structural)]
pub enum DisplayPresence {
    Present,
}

/// What the display is for.
#[derive(Debug, Clone, Copy, PartialEq, Eq, Hash, Structural)]
pub enum DisplayPurpose {
    Work,
}

/// A feature, in or out of the first version.
#[derive(Debug, Clone, Copy, PartialEq, Eq, Hash, Structural)]
pub enum Feature {
    SinglePanel,
    PanelShowsLinuxDisplay,
    PanelGrabReposition,
    CursorOnPanel,
    ClickDeliveredToLinux,
    KeyInputDeliveredToLinux,
    MultiPanel,
    CurvedPanel,
    Passthrough,
    EnvironmentSwitching,
    Audio,
}

impl Feature {
    /// Every feature.
    pub const ALL: [Feature; 11] = [
        Feature::SinglePanel,
        Feature::PanelShowsLinuxDisplay,
        Feature::PanelGrabReposition,
        Feature::CursorOnPanel,
        Feature::ClickDeliveredToLinux,
        Feature::KeyInputDeliveredToLinux,
        Feature::MultiPanel,
        Feature::CurvedPanel,
        Feature::Passthrough,
        Feature::EnvironmentSwitching,
        Feature::Audio,
    ];

    /// The spelling of the feature.
    pub open spec fn name(self) -> Seq<char> {
        match self {
            Feature::SinglePanel => "single_panel"@,
            Feature::PanelShowsLinuxDisplay => "panel_shows_linux_display"@,
            Feature::PanelGrabReposition => "panel_grab_reposition"@,
            Feature::CursorOnPanel => "cursor_on_panel"@,
            Feature::ClickDeliveredToLinux => "click_delivered_to_linux"@,
            Feature::KeyInputDeliveredToLinux => "key_input_delivered_to_linux"@,
            Feature::MultiPanel => "multi_panel"@,
            Feature::CurvedPanel => "curved_panel"@,
            Feature::Passthrough => "passthrough"@,
            Feature::EnvironmentSwitching => "environment_switching"@,
            Feature::Audio => "audio"@,
        }
    }

    /// Whether the first version leaves the feature out.
    pub open spec fn excluded(self) -> bool {
        ||| self == Feature::MultiPanel
        ||| self == Feature::CurvedPanel
        ||| self == Feature::Passthrough
        ||| self == Feature::EnvironmentSwitching
        ||| self == Feature::Audio
    }

    /// The spelling of the feature.
    pub fn as_str(self) -> (r: &'static str)
        ensures
            r@ == self.name(),
    {
        match self {
            Feature::SinglePanel => "single_panel",
            Feature::PanelShowsLinuxDisplay => "panel_shows_linux_display",
            Feature::PanelGrabReposition => "panel_grab_reposition",
            Feature::CursorOnPanel => "cursor_on_panel",
            Feature::ClickDeliveredToLinux => "click_delivered_to_linux",
            Feature::KeyInputDeliveredToLinux => "key_input_delivered_to_linux",
            Feature::MultiPanel => "multi_panel",
            Feature::CurvedPanel => "curved_panel",
            Feature::Passthrough => "passthrough",
            Feature::EnvironmentSwitching => "environment_switching",
            Feature::Audio => "audio",
        }
    }

    /// Whether the first version leaves the feature out.
    pub fn excluded_from_v1(self) -> (r: bool)
        ensures
            r == self.excluded(),
    {
        match self {
            Feature::MultiPanel => true,
            Feature::CurvedPanel => true,
            Feature::Passthrough => true,
            Feature::EnvironmentSwitching => true,
            Feature::Audio => true,
            _ => false,
        }
    }
}

/// The first version has one panel.
pub const V1_PANEL_COUNT: u8 = 1;

/// What the first version leaves out.
pub const V1_EXCLUDED_FEATURES: [Feature; 5] = [
    Feature::MultiPanel,
    Feature::CurvedPanel,
    Feature::Passthrough,
    Feature::EnvironmentSwitching,
    Feature::Audio,
];

/// What the first version has.
pub const V1_INCLUDED_FEATURES: [Feature; 6] = [
    Feature::SinglePanel,
    Feature::PanelShowsLinuxDisplay,
    Feature::PanelGrabReposition,
    Feature::CursorOnPanel,
    Feature::ClickDeliveredToLinux,
    Feature::KeyInputDeliveredToLinux,
];

/// Every feature stands on exactly one side, and the sides are what
/// [`Feature::excluded`] says.
pub proof fn law_features_are_partitioned(feature: Feature)
    ensures
        Feature::ALL@.contains(feature),
        V1_EXCLUDED_FEATURES@.contains(feature) <==> feature.excluded(),
        V1_INCLUDED_FEATURES@.contains(feature) <==> !feature.excluded(),
{
    let all = Feature::ALL@;
    let out = V1_EXCLUDED_FEATURES@;
    let kept = V1_INCLUDED_FEATURES@;
    assert(all[0] == Feature::SinglePanel && all[1] == Feature::PanelShowsLinuxDisplay && all[2]
        == Feature::PanelGrabReposition && all[3] == Feature::CursorOnPanel && all[4]
        == Feature::ClickDeliveredToLinux && all[5] == Feature::KeyInputDeliveredToLinux && all[6]
        == Feature::MultiPanel && all[7] == Feature::CurvedPanel && all[8]
        == Feature::Passthrough && all[9] == Feature::EnvironmentSwitching && all[10]
        == Feature::Audio);
    assert(out[0] == Feature::MultiPanel && out[1] == Feature::CurvedPanel && out[2]
        == Feature::Passthrough && out[3] == Feature::EnvironmentSwitching && out[4]
        == Feature::Audio);
    assert(kept[0] == Feature::SinglePanel && kept[1] == Feature::PanelShowsLinuxDisplay && kept[2]
        == Feature::PanelGrabReposition && kept[3] == Feature::CursorOnPanel && kept[4]
        == Feature::ClickDeliveredToLinux && kept[5] == Feature::KeyInputDeliveredToLinux);
}

/// What the first version promises.
#[derive(Debug, Clone, Copy, PartialEq, Eq, Structural)]
pub struct V1Contract {
    pub host: HostPlatform,
    pub deliverable: Deliverable,
    pub hmd: Hmd,
    pub background: Background,
    pub display: DisplayPresence,
    pub purpose: DisplayPurpose,
    pub panel_count: u8,
}

impl V1Contract {
    /// The first version.
    pub fn v1() -> (r: Self)
        ensures
            r == (V1Contract {
                host: HostPlatform::Linux,
                deliverable: Deliverable::SelfBuiltVrWorkEnvironment,
                hmd: Hmd::Quest3,
                background: Background::Black,
                display: DisplayPresence::Present,
                purpose: DisplayPurpose::Work,
                panel_count: V1_PANEL_COUNT,
            }),
    {
        V1Contract {
            host: HostPlatform::Linux,
            deliverable: Deliverable::SelfBuiltVrWorkEnvironment,
            hmd: Hmd::Quest3,
            background: Background::Black,
            display: DisplayPresence::Present,
            purpose: DisplayPurpose::Work,
            panel_count: V1_PANEL_COUNT,
        }
    }
}

impl Default for V1Contract {
    fn default() -> (r: Self)
        ensures
            r.host == HostPlatform::Linux,
            r.deliverable == Deliverable::SelfBuiltVrWorkEnvironment,
            r.hmd == Hmd::Quest3,
            r.background == Background::Black,
            r.display == DisplayPresence::Present,
            r.purpose == DisplayPurpose::Work,
            r.panel_count == V1_PANEL_COUNT,
    {
        V1Contract::v1()
    }
}

/// Refuses a request that asks for a feature that the first version leaves out;
/// the error names the first such feature.
pub fn check_v1_scope(requested: &[Feature]) -> (r: Result<(), Error>)
    ensures
        r is Ok <==> forall|i: int| 0 <= i < requested@.len() ==> !(#[trigger] requested@[i]).excluded(),
        r matches Err(e) ==> exists|i: int|
            {
                &&& 0 <= i < requested@.len()
                &&& (#[trigger] requested@[i]).excluded()
                &&& forall|j: int| 0 <= j < i ==> !(#[trigger] requested@[j]).excluded()
                &&& e@ == plain_error(
                    ErrorCode::Unsupported,
                    "feature is outside the v1 scope frozen by schorl.spec"@,
                ).with("feature"@, DetailView::Text(requested@[i].name()))
            },
{
    let mut i: usize = 0;
    while i < requested.len()
        invariant
            i <= requested.len(),
            forall|j: int| 0 <= j < i ==> !(#[trigger] requested@[j]).excluded(),
        decreases requested.len() - i,
    {
        let feature = requested[i];
        if feature.excluded_from_v1() {
            assert(requested@[i as int].excluded());
            return Err(
                Error::new(
                    ErrorCode::Unsupported,
                    "feature is outside the v1 scope frozen by schorl.spec",
                    TraceId::unattributed(),
                ).with_detail("feature", feature.as_str()),
            );
        }
        i = i + 1;
    }
    Ok(())
}

} // verus!

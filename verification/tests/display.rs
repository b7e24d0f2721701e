use schorl::display::hyprland::{
    monitor_keyword_value, parse_instance_signature, parse_monitor_names, CommandOutput,
    HyprctlOutputReleaser, HyprlandHeadlessOutputProvider, SystemCommandRunner,
};
use schorl::display::testing::{FakeOutputProvider, RecordingReleaser, ScriptedRunner};
use schorl::display::{
    assert_runtime_only, HostOp, HostOpKind, OutputId, OutputRelease, OutputRequest,
    VirtualOutput, VirtualOutputProvider,
};
use schorl::error::{DetailValue, Error, ErrorCode};
use schorl::id::{Id, IdScheme, IdempotencyKey, TraceId};

/// Gives an output back when it goes out of scope.
struct Held<'a, R: OutputRelease> {
    output: VirtualOutput,
    through: &'a mut R,
}

impl<R: OutputRelease> Drop for Held<'_, R> {
    fn drop(&mut self) {
        self.output.release_at_scope_end(self.through);
    }
}

fn named_request(name: &str) -> OutputRequest {
    OutputRequest {
        preferred_name: name.to_owned(),
        width_px: 1920,
        height_px: 1080,
        refresh_millihz: 60_000,
        idempotency_key: IdempotencyKey::new(Id::new(IdScheme::Ulid, "out-1").expect("valid text")),
    }
}

fn request(key: &str) -> OutputRequest {
    OutputRequest {
        preferred_name: "SCHORL-PANEL".to_owned(),
        width_px: 1920,
        height_px: 1080,
        refresh_millihz: 60_000,
        idempotency_key: IdempotencyKey::new(Id::new(IdScheme::Ulid, key).expect("valid text")),
    }
}

#[test]
fn dropping_the_handle_returns_the_output() {
    let mut releaser = RecordingReleaser::new();
    let mut provider = FakeOutputProvider::new();
    {
        let output = provider.create(&named_request("SCHORL-1")).expect("created");
        assert_eq!(output.id().as_str(), "SCHORL-1");
        let held = Held {
            output,
            through: &mut releaser,
        };
        assert!(held.through.released().is_empty(), "still held inside the scope");
    }
    assert_eq!(releaser.released(), ["SCHORL-1".to_owned()]);
}

fn bail_out(
    provider: &mut FakeOutputProvider,
    releaser: &mut RecordingReleaser,
    request: &OutputRequest,
) -> Result<(), Error> {
    let output = provider.create(request)?;
    let _held = Held {
        output,
        through: releaser,
    };
    Err(Error::new(
        ErrorCode::Internal,
        "something went wrong after acquiring",
        TraceId::unattributed(),
    ))
}

#[test]
fn an_early_return_still_returns_the_output() {
    let mut releaser = RecordingReleaser::new();
    let mut provider = FakeOutputProvider::new();
    let err = bail_out(&mut provider, &mut releaser, &named_request("SCHORL-2"))
        .expect_err("bails out");
    assert_eq!(err.code(), ErrorCode::Internal);
    assert_eq!(releaser.released(), ["SCHORL-2".to_owned()]);
}

#[test]
fn explicit_release_happens_exactly_once() {
    let mut releaser = RecordingReleaser::new();
    let mut provider = FakeOutputProvider::new();
    let output = provider.create(&named_request("SCHORL-3")).expect("created");
    output.release(&mut releaser).expect("released");
    assert_eq!(releaser.released(), ["SCHORL-3".to_owned()]);
}

/// Takes nothing back, and counts what was asked.
struct Refusing {
    asked: Vec<String>,
}

impl OutputRelease for Refusing {
    fn release(&mut self, id: &OutputId) -> Result<(), Error> {
        self.asked.push(id.as_str().to_owned());
        Err(Error::new(
            ErrorCode::HostRefused,
            "the host keeps it",
            TraceId::unattributed(),
        ))
    }
}

#[test]
fn a_host_that_does_not_take_an_output_back_is_reported_once() {
    let mut refusing = Refusing { asked: Vec::new() };
    let output = VirtualOutput::new(OutputId::new("SCHORL-5").expect("valid name"));
    let err = output.release(&mut refusing).expect_err("refused");
    assert_eq!(err.code(), ErrorCode::HostRefused);
    assert_eq!(err.message(), "the host keeps it");
    assert_eq!(refusing.asked, ["SCHORL-5".to_owned()]);
}

#[test]
fn a_scope_that_ends_twice_releases_once() {
    let mut releaser = RecordingReleaser::new();
    let mut output = VirtualOutput::new(OutputId::new("SCHORL-4").expect("valid name"));
    assert!(output.is_held());
    output.release_at_scope_end(&mut releaser);
    assert!(!output.is_held());
    output.release_at_scope_end(&mut releaser);
    assert_eq!(releaser.released(), ["SCHORL-4".to_owned()]);
}

#[test]
fn a_persistent_configuration_change_is_refused() {
    let ops = vec![
        HostOp::runtime("create a headless output"),
        HostOp {
            kind: HostOpKind::PersistentConfiguration,
            description: "rewrite hyprland.conf".to_owned(),
        },
    ];
    let err = assert_runtime_only(&ops).expect_err("persistent change must be refused");
    assert_eq!(err.code(), ErrorCode::HostRefused);
}

#[test]
fn the_fake_provider_only_declares_runtime_operations() {
    let provider = FakeOutputProvider::new();
    assert_runtime_only(&provider.declared_host_ops()).expect("runtime only");
}

#[test]
fn empty_output_names_are_refused() {
    assert_eq!(
        OutputId::new("").expect_err("empty name").code(),
        ErrorCode::InvalidArgument
    );
}

#[test]
fn monitor_names_come_from_the_plain_listing() {
    let listing = "Monitor HEADLESS-2 (ID 1):\n\t2560x1440@120.00000 at 0x0\n\tscale: 1.00\nMonitor HEADLESS-3 (ID 2):\n\tdescription: \n";
    assert_eq!(
        parse_monitor_names(listing),
        vec!["HEADLESS-2".to_owned(), "HEADLESS-3".to_owned()]
    );
}

#[test]
fn only_lines_that_begin_with_the_word_name_a_monitor() {
    let listing = " Monitor A (ID 0):\nMonitor\nMonitor \t\nMonitor B\r\nmonitor C\nMonitor\u{a0}D x";
    assert_eq!(parse_monitor_names(listing), vec!["B".to_owned()]);
    assert_eq!(parse_monitor_names(""), Vec::<String>::new());
}

#[test]
fn the_instance_signature_is_matched_by_socket() {
    let stdout = r#"[
{
    "instance": "sig-a",
    "wl_socket": "wayland-0"
},
{
    "instance": "sig-b",
    "wl_socket": "wayland-1"
}
]"#;
    assert_eq!(
        parse_instance_signature(stdout, "wayland-1"),
        Some("sig-b".to_owned())
    );
    assert_eq!(parse_instance_signature(stdout, "wayland-9"), None);
}

#[test]
fn the_mode_keyword_is_built_from_the_request() {
    assert_eq!(
        monitor_keyword_value("HEADLESS-3", 1920, 1080, 60_000),
        "HEADLESS-3,1920x1080@60,auto,1"
    );
}

#[test]
fn a_broken_refresh_rate_keeps_its_thousandths() {
    assert_eq!(
        monitor_keyword_value("X", 1, 2, 59_940),
        "X,1x2@59.94,auto,1"
    );
    assert_eq!(
        monitor_keyword_value("X", 1, 2, 60_005),
        "X,1x2@60.005,auto,1"
    );
}

#[test]
fn dropping_the_handle_removes_only_the_output_schorl_created() {
    let runner = ScriptedRunner::new(&["HEADLESS-2"], Some("HEADLESS-3"));
    let mut provider = HyprlandHeadlessOutputProvider::new(runner);
    {
        let output = provider.create(&request("key-1")).expect("created");
        assert_eq!(output.id().as_str(), "HEADLESS-3");
        assert!(
            provider.runner().monitors.contains(&"HEADLESS-2".to_owned()),
            "the output owned by another program is untouched"
        );
        let _held = Held {
            output,
            through: provider.releaser(),
        };
    }
    assert_eq!(
        provider.runner().monitors,
        vec!["HEADLESS-2".to_owned()],
        "only the created output is gone"
    );
    assert!(
        provider
            .runner()
            .calls
            .iter()
            .any(|c| c == "hyprctl output remove HEADLESS-3"),
        "calls were {:?}",
        provider.runner().calls
    );
}

#[test]
fn a_refused_mode_still_returns_the_output() {
    let mut scripted = ScriptedRunner::new(&["HEADLESS-2"], Some("HEADLESS-3"));
    scripted.keyword_succeeds = false;
    let mut provider = HyprlandHeadlessOutputProvider::new(scripted);
    let err = provider.create(&request("key-2")).expect_err("mode refused");
    assert_eq!(err.code(), ErrorCode::HostRefused);
    assert_eq!(
        provider.runner().monitors,
        vec!["HEADLESS-2".to_owned()],
        "the half-built output was handed back"
    );
}

#[test]
fn nothing_is_created_when_hyprctl_refuses() {
    let mut scripted = ScriptedRunner::new(&["HEADLESS-2"], None);
    scripted.create_succeeds = false;
    let mut provider = HyprlandHeadlessOutputProvider::new(scripted);
    let err = provider.create(&request("key-3")).expect_err("create refused");
    assert_eq!(err.code(), ErrorCode::HostRefused);
    assert_eq!(provider.runner().monitors, vec!["HEADLESS-2".to_owned()]);
}

#[test]
fn an_output_that_does_not_appear_is_an_error() {
    let mut provider = HyprlandHeadlessOutputProvider::new(ScriptedRunner::new(&["A"], None));
    let err = provider.create(&request("key-9")).expect_err("nothing appeared");
    assert_eq!(err.code(), ErrorCode::HostRefused);
    assert_eq!(
        provider.runner().calls,
        vec![
            "hyprctl monitors".to_owned(),
            "hyprctl output create headless".to_owned(),
            "hyprctl monitors".to_owned(),
        ]
    );
}

#[test]
fn the_same_idempotency_key_does_not_create_a_second_output() {
    let runner = ScriptedRunner::new(&["HEADLESS-2"], Some("HEADLESS-3"));
    let mut provider = HyprlandHeadlessOutputProvider::new(runner);
    let first = provider.create(&request("key-4")).expect("created");
    let calls = provider.runner().calls.len();
    let err = provider
        .create(&request("key-4"))
        .expect_err("the same key must not create a second output");
    assert_eq!(err.code(), ErrorCode::InvalidArgument);
    assert_eq!(provider.runner().calls.len(), calls);
    drop(first);
}

#[test]
fn releasing_twice_is_quiet() {
    let runner = ScriptedRunner::new(&["HEADLESS-2", "HEADLESS-7"], None);
    let mut releaser = HyprctlOutputReleaser::new(runner);
    let id = OutputId::new("HEADLESS-7").expect("valid name");
    releaser.release(&id).expect("first release");
    releaser.release(&id).expect("second release is a no-op");
    assert_eq!(releaser.runner().monitors, vec!["HEADLESS-2".to_owned()]);
    assert_eq!(
        releaser
            .runner()
            .calls
            .iter()
            .filter(|c| c.contains("remove"))
            .count(),
        1
    );
}

#[test]
fn a_zero_sized_output_is_refused_before_touching_the_host() {
    let runner = ScriptedRunner::new(&["HEADLESS-2"], Some("HEADLESS-3"));
    let mut provider = HyprlandHeadlessOutputProvider::new(runner);
    let mut req = request("key-5");
    req.width_px = 0;
    let err = provider.create(&req).expect_err("zero width");
    assert_eq!(err.code(), ErrorCode::InvalidArgument);
    assert!(provider.runner().calls.is_empty(), "the host was never asked");
}

#[test]
fn the_provider_declares_only_runtime_operations() {
    let provider = HyprlandHeadlessOutputProvider::new(ScriptedRunner::new(&[], None));
    assert_runtime_only(&provider.declared_host_ops()).expect("runtime only");
}

#[test]
fn a_command_succeeds_with_status_zero_alone() {
    let of = |status_code: Option<i32>| CommandOutput {
        status_code,
        stdout: String::new(),
        stderr: String::new(),
    };
    assert!(of(Some(0)).is_success());
    assert!(!of(Some(1)).is_success());
    assert!(!of(None).is_success());
}

#[test]
fn a_program_that_does_not_start_is_named() {
    let runner = SystemCommandRunner::new().with_env("A", "1").with_env("B", "2");
    assert_eq!(
        runner.env(),
        [
            ("A".to_owned(), "1".to_owned()),
            ("B".to_owned(), "2".to_owned())
        ]
    );
    let err = SystemCommandRunner::not_started("hyprctl", "no such file");
    assert_eq!(err.code(), ErrorCode::HostRefused);
    assert_eq!(err.source(), Some("no such file"));
    assert!(err
        .details()
        .iter()
        .iter()
        .any(|(k, v)| *k == "program" && **v == DetailValue::Text("hyprctl".to_owned())));
}

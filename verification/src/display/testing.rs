//! Stand-ins for the host's outputs.

use vstd::prelude::*;

use crate::display::hyprland::{
    arg_texts, create_args, list_args, reply_view, CallView, CommandOutput, CommandOutputView,
    CommandRunner,
};
use crate::display::{
    runtime_only, HostOp, OutputId, OutputRelease, OutputRequest, ReleaseView, VirtualOutput,
    VirtualOutputProvider,
};
use crate::error::{plain_error, Error, ErrorCode};
use crate::testing::texts;
use crate::text::{decimal, push_decimal, same_text};

verus! {

/// Takes every output back and remembers its name.
#[derive(Debug)]
pub struct RecordingReleaser {
    released: Vec<String>,
}

impl RecordingReleaser {
    /// The names of the outputs that were taken back.
    pub closed spec fn names(self) -> Seq<Seq<char>> {
        texts(self.released@)
    }

    /// A releaser that has taken nothing back.
    pub fn new() -> (r: Self)
        ensures
            r.asked() == Seq::<ReleaseView>::empty(),
    {
        let r = RecordingReleaser { released: Vec::new() };
        assert(r.asked() =~= Seq::<ReleaseView>::empty());
        r
    }

    /// The names of what was taken back, in order.
    pub fn released(&self) -> (r: &[String])
        ensures
            texts(r@) == self.names(),
    {
        self.released.as_slice()
    }
}

/// Outputs that were all taken back.
pub open spec fn taken_back(names: Seq<Seq<char>>) -> Seq<ReleaseView> {
    Seq::new(names.len(), |i: int| ReleaseView { output: names[i], outcome: Ok(()) })
}

/// A releaser that takes every output back has answered every one with yes.
pub proof fn law_recording_releaser_takes_everything(releaser: RecordingReleaser, i: int)
    requires
        0 <= i < releaser.asked().len(),
    ensures
        releaser.asked()[i].outcome is Ok,
{
}

impl OutputRelease for RecordingReleaser {
    open spec fn asked(&self) -> Seq<ReleaseView> {
        taken_back(self.names())
    }

    fn release(&mut self, id: &OutputId) -> (r: Result<(), Error>)
        ensures
            r is Ok,
    {
        self.released.push(id.as_str().to_owned());
        assert(self.asked() =~= old(self).asked().push(
            ReleaseView { output: id@, outcome: Ok(()) },
        ));
        Ok(())
    }
}

/// Makes an output of any request, under the preferred name.
#[derive(Debug)]
pub struct FakeOutputProvider;

impl FakeOutputProvider {
    /// A provider.
    pub fn new() -> (r: Self) {
        FakeOutputProvider
    }
}

impl VirtualOutputProvider for FakeOutputProvider {
    fn create(&mut self, request: &OutputRequest) -> (r: Result<VirtualOutput, Error>)
        ensures
            r is Ok <==> request.preferred_name@.len() > 0,
            r matches Ok(o) ==> o.held() && o.name() == request.preferred_name@,
            r matches Err(e) ==> e@ == plain_error(
                ErrorCode::InvalidArgument,
                "output id must not be empty"@,
            ),
    {
        match OutputId::new(request.preferred_name.as_str()) {
            Ok(id) => Ok(VirtualOutput::new(id)),
            Err(e) => Err(e),
        }
    }

    fn declared_host_ops(&self) -> (r: Vec<HostOp>)
        ensures
            r@.len() == 1,
            r@[0].description@ == "create a headless output for the lifetime of the process"@,
            runtime_only(r@),
    {
        let mut ops: Vec<HostOp> = Vec::new();
        ops.push(HostOp::runtime("create a headless output for the lifetime of the process"));
        ops
    }
}

/// What `hyprctl monitors` prints of one output.
pub open spec fn listing_entry(name: Seq<char>, number: nat) -> Seq<char> {
    "Monitor "@ + name + " (ID "@ + decimal(number) + "):\n\t1920x1080@60.00 at 0x0\n"@
}

/// What `hyprctl monitors` prints of all outputs.
pub open spec fn listing(names: Seq<Seq<char>>) -> Seq<char>
    decreases names.len(),
{
    if names.len() == 0 {
        Seq::empty()
    } else {
        listing(names.drop_last()) + listing_entry(names.last(), (names.len() - 1) as nat)
    }
}

/// `names` without `name`.
pub open spec fn without(names: Seq<Seq<char>>, name: Seq<char>) -> Seq<Seq<char>>
    decreases names.len(),
{
    if names.len() == 0 {
        Seq::empty()
    } else if names.last() == name {
        without(names.drop_last(), name)
    } else {
        without(names.drop_last(), name).push(names.last())
    }
}

/// A success that printed `stdout`.
pub open spec fn printed(stdout: Seq<char>) -> CommandOutputView {
    CommandOutputView { status_code: Some(0i32), stdout, stderr: Seq::empty() }
}

/// A failure that said `stderr`.
pub open spec fn refused(stderr: Seq<char>) -> CommandOutputView {
    CommandOutputView { status_code: Some(1i32), stdout: Seq::empty(), stderr }
}

/// A host that answers `hyprctl` from a script.
pub struct ScriptedRunner {
    pub monitors: Vec<String>,
    pub calls: Vec<String>,
    pub create_succeeds: bool,
    pub keyword_succeeds: bool,
    pub appears_as: Option<String>,
    pub log: Ghost<Seq<CallView>>,
}

/// The command line of a call: the program and its arguments, with blanks between.
pub open spec fn command_line(program: Seq<char>, args: Seq<Seq<char>>) -> Seq<char>
    decreases args.len(),
{
    if args.len() == 0 {
        program + " "@
    } else if args.len() == 1 {
        program + " "@ + args[0]
    } else {
        command_line(program, args.drop_last()) + " "@ + args.last()
    }
}

/// What the scripted host answers, and which outputs it has afterwards.
pub open spec fn scripted(host: ScriptedRunner, args: Seq<Seq<char>>) -> (
    CommandOutputView,
    Seq<Seq<char>>,
) {
    let names = texts(host.monitors@);
    if args == list_args() {
        (printed(listing(names)), names)
    } else if args == create_args() {
        if !host.create_succeeds {
            (refused("no backend"@), names)
        } else {
            match host.appears_as {
                Some(name) => (printed(Seq::empty()), names.push(name@)),
                None => (printed(Seq::empty()), names),
            }
        }
    } else if args.len() == 3 && args[0] == "output"@ && args[1] == "remove"@ {
        (printed(Seq::empty()), without(names, args[2]))
    } else if args.len() == 3 && args[0] == "keyword"@ && args[1] == "monitor"@ {
        if host.keyword_succeeds {
            (printed(Seq::empty()), names)
        } else {
            (refused("invalid mode"@), names)
        }
    } else {
        (refused("unexpected command"@), names)
    }
}

impl ScriptedRunner {
    /// A host with the given outputs, on which everything succeeds.
    pub fn new(initial: &[&str], appears_as: Option<&str>) -> (r: Self)
        ensures
            texts(r.monitors@) == arg_texts(initial@),
            r.calls@.len() == 0,
            r.create_succeeds,
            r.keyword_succeeds,
            r.appears_as is Some <==> appears_as is Some,
            appears_as is Some ==> r.appears_as->0@ == appears_as->0@,
            r.log@ == Seq::<CallView>::empty(),
    {
        let mut monitors: Vec<String> = Vec::new();
        let mut i: usize = 0;
        while i < initial.len()
            invariant
                i <= initial.len(),
                monitors@.len() == i,
                forall|j: int| 0 <= j < i ==> (#[trigger] monitors@[j])@ == initial@[j]@,
            decreases initial.len() - i,
        {
            monitors.push(initial[i].to_owned());
            i = i + 1;
        }
        assert(texts(monitors@) =~= arg_texts(initial@));
        ScriptedRunner {
            monitors,
            calls: Vec::new(),
            create_succeeds: true,
            keyword_succeeds: true,
            appears_as: match appears_as {
                Some(name) => Some(name.to_owned()),
                None => None,
            },
            log: Ghost(Seq::empty()),
        }
    }

    fn monitor_listing(&self) -> (r: String)
        ensures
            r@ == listing(texts(self.monitors@)),
    {
        let ghost names = texts(self.monitors@);
        let mut out = String::new();
        let mut i: usize = 0;
        assert(names.take(0) =~= Seq::<Seq<char>>::empty());
        while i < self.monitors.len()
            invariant
                i <= self.monitors.len(),
                names == texts(self.monitors@),
                out@ == listing(names.take(i as int)),
            decreases self.monitors.len() - i,
        {
            let ghost done = names.take(i as int + 1);
            assert(done.drop_last() =~= names.take(i as int));
            assert(done.last() == self.monitors@[i as int]@);
            out.append("Monitor ");
            out.append(self.monitors[i].as_str());
            out.append(" (ID ");
            push_decimal(&mut out, i as u64);
            out.append("):\n\t1920x1080@60.00 at 0x0\n");
            assert(out@ =~= listing(done));
            i = i + 1;
        }
        assert(names.take(i as int) =~= names);
        out
    }

    fn remove(&mut self, name: &str)
        ensures
            texts(final(self).monitors@) == without(texts(old(self).monitors@), name@),
            final(self).create_succeeds == old(self).create_succeeds,
            final(self).keyword_succeeds == old(self).keyword_succeeds,
            final(self).appears_as == old(self).appears_as,
            final(self).calls == old(self).calls,
            final(self).log == old(self).log,
    {
        let ghost names = texts(self.monitors@);
        let mut kept: Vec<String> = Vec::new();
        let mut i: usize = 0;
        assert(texts(kept@) =~= without(names.take(0), name@));
        while i < self.monitors.len()
            invariant
                i <= self.monitors.len(),
                *self == *old(self),
                names == texts(self.monitors@),
                texts(kept@) == without(names.take(i as int), name@),
            decreases self.monitors.len() - i,
        {
            let ghost done = names.take(i as int + 1);
            let ghost so_far = texts(kept@);
            assert(done.drop_last() =~= names.take(i as int));
            assert(done.last() == self.monitors@[i as int]@);
            if !same_text(self.monitors[i].as_str(), name) {
                kept.push(self.monitors[i].clone());
                assert(texts(kept@) =~= so_far.push(self.monitors@[i as int]@));
            }
            i = i + 1;
        }
        assert(names.take(i as int) =~= names);
        self.monitors = kept;
    }

    fn note_call(&mut self, program: &str, args: &[&str])
        ensures
            texts(final(self).calls@) == texts(old(self).calls@).push(
                command_line(program@, arg_texts(args@)),
            ),
            final(self).monitors == old(self).monitors,
            final(self).create_succeeds == old(self).create_succeeds,
            final(self).keyword_succeeds == old(self).keyword_succeeds,
            final(self).appears_as == old(self).appears_as,
            final(self).log == old(self).log,
    {
        let ghost all = arg_texts(args@);
        let mut line = program.to_owned();
        line.append(" ");
        let mut i: usize = 0;
        assert(line@ =~= command_line(program@, all.take(0)));
        while i < args.len()
            invariant
                i <= args.len(),
                all == arg_texts(args@),
                *self == *old(self),
                line@ == command_line(program@, all.take(i as int)),
            decreases args.len() - i,
        {
            let ghost done = all.take(i as int + 1);
            assert(done.drop_last() =~= all.take(i as int));
            assert(done.last() == args@[i as int]@);
            if i > 0 {
                line.append(" ");
            }
            line.append(args[i]);
            assert(line@ =~= command_line(program@, done));
            i = i + 1;
        }
        assert(all.take(i as int) =~= all);
        self.calls.push(line);
        assert(texts(self.calls@) =~= texts(old(self).calls@).push(command_line(program@, all)));
    }
}

fn succeeded(stdout: String) -> (r: CommandOutput)
    ensures
        r@ == printed(stdout@),
{
    CommandOutput { status_code: Some(0), stdout, stderr: String::new() }
}

fn failed(stderr: &str) -> (r: CommandOutput)
    ensures
        r@ == refused(stderr@),
{
    CommandOutput { status_code: Some(1), stdout: String::new(), stderr: stderr.to_owned() }
}

impl CommandRunner for ScriptedRunner {
    open spec fn calls(&self) -> Seq<CallView> {
        self.log@
    }

    fn run(&mut self, program: &str, args: &[&str]) -> (r: Result<CommandOutput, Error>)
        ensures
            r is Ok,
            r->Ok_0@ == scripted(*old(self), arg_texts(args@)).0,
            texts(final(self).monitors@) == scripted(*old(self), arg_texts(args@)).1,
            texts(final(self).calls@) == texts(old(self).calls@).push(
                command_line(program@, arg_texts(args@)),
            ),
            final(self).create_succeeds == old(self).create_succeeds,
            final(self).keyword_succeeds == old(self).keyword_succeeds,
            final(self).appears_as == old(self).appears_as,
    {
        let ghost all = arg_texts(args@);
        self.note_call(program, args);
        let output = if args.len() == 1 && same_text(args[0], "monitors") {
            assert(all =~= list_args());
            succeeded(self.monitor_listing())
        } else if args.len() == 3 && same_text(args[0], "output") && same_text(args[1], "create")
            && same_text(args[2], "headless") {
            assert(all =~= create_args());
            if !self.create_succeeds {
                failed("no backend")
            } else {
                match &self.appears_as {
                    Some(name) => {
                        self.monitors.push(name.clone());
                        assert(texts(self.monitors@) =~= texts(old(self).monitors@).push(name@));
                    },
                    None => {},
                }
                succeeded(String::new())
            }
        } else {
            proof {
                if all == list_args() {
                    assert(all.len() == 1 && all[0] == "monitors"@);
                }
                if all == create_args() {
                    assert(all[0] == "output"@ && all[1] == "create"@ && all[2] == "headless"@);
                }
            }
            if args.len() == 3 && same_text(args[0], "output") && same_text(args[1], "remove") {
                self.remove(args[2]);
                succeeded(String::new())
            } else if args.len() == 3 && same_text(args[0], "keyword") && same_text(
                args[1],
                "monitor",
            ) {
                if self.keyword_succeeds {
                    succeeded(String::new())
                } else {
                    failed("invalid mode")
                }
            } else {
                failed("unexpected command")
            }
        };
        let reply: Result<CommandOutput, Error> = Ok(output);
        self.log = Ghost(
            self.log@.push(CallView { program: program@, args: all, reply: reply_view(reply) }),
        );
        reply
    }
}

} // verus!

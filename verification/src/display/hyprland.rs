//! Outputs of a Hyprland host, made and given back through `hyprctl`.
//!
//! An output that was there before is never taken for one's own, and an output
//! that could not be set up is given back before the error is told.

use vstd::prelude::*;

use crate::display::{
    runtime_only, HostOp, OutputId, OutputRelease, OutputRequest, ReleaseView, VirtualOutput,
    VirtualOutputProvider,
};
use crate::error::{done_view, plain_error, DetailView, Error, ErrorCode, ErrorView};
use crate::id::TraceId;
use crate::scan::{
    after, before, first_word, law_word_is_solid, pieces, rows, split_pieces, string_of,
    text_after, text_before, trim, trimmed, word_from,
};
use crate::testing::texts;
use crate::text::{chars_of, decimal, digit, digit_char, push_decimal, same_text};

pub mod laws;

verus! {

/// What a command left behind.
#[derive(Debug, PartialEq, Eq)]
pub struct CommandOutput {
    pub status_code: Option<i32>,
    pub stdout: String,
    pub stderr: String,
}

/// What a [`CommandOutput`] holds.
pub struct CommandOutputView {
    pub status_code: Option<i32>,
    pub stdout: Seq<char>,
    pub stderr: Seq<char>,
}

impl CommandOutputView {
    /// Whether the command ended with status zero.
    pub open spec fn success(self) -> bool {
        self.status_code == Some(0i32)
    }
}

impl View for CommandOutput {
    type V = CommandOutputView;

    open spec fn view(&self) -> CommandOutputView {
        CommandOutputView {
            status_code: self.status_code,
            stdout: self.stdout@,
            stderr: self.stderr@,
        }
    }
}

impl CommandOutput {
    /// Whether the command ended with status zero.
    pub fn is_success(&self) -> (r: bool)
        ensures
            r == self@.success(),
    {
        match self.status_code {
            Some(code) => code == 0,
            None => false,
        }
    }
}

/// A command that was run, and what came of it.
pub struct CallView {
    pub program: Seq<char>,
    pub args: Seq<Seq<char>>,
    pub reply: Result<CommandOutputView, ErrorView>,
}

/// The texts of a row of arguments.
pub open spec fn arg_texts(args: Seq<&str>) -> Seq<Seq<char>> {
    Seq::new(args.len(), |i: int| args[i]@)
}

/// What came of a command.
pub open spec fn reply_view(reply: Result<CommandOutput, Error>) -> Result<
    CommandOutputView,
    ErrorView,
> {
    match reply {
        Ok(output) => Ok(output@),
        Err(e) => Err(e@),
    }
}

/// Runs commands on the host.
pub trait CommandRunner {
    /// The commands that were run so far, in order.
    open spec fn calls(&self) -> Seq<CallView> {
        arbitrary()
    }

    fn run(&mut self, program: &str, args: &[&str]) -> (r: Result<CommandOutput, Error>)
        ensures
            final(self).calls() == old(self).calls().push(
                CallView { program: program@, args: arg_texts(args@), reply: reply_view(r) },
            ),
    ;
}

/// The environment that commands of the host are run with.
#[derive(Debug)]
pub struct SystemCommandRunner {
    env: Vec<(String, String)>,
}

impl SystemCommandRunner {
    /// The variables that are set, in order.
    pub closed spec fn variables(&self) -> Seq<(Seq<char>, Seq<char>)> {
        Seq::new(self.env@.len(), |i: int| (self.env@[i].0@, self.env@[i].1@))
    }

    /// No variable is set.
    pub fn new() -> (r: Self)
        ensures
            r.variables() == Seq::<(Seq<char>, Seq<char>)>::empty(),
    {
        let r = SystemCommandRunner { env: Vec::new() };
        assert(r.variables() =~= Seq::<(Seq<char>, Seq<char>)>::empty());
        r
    }

    /// The same, with one more variable set.
    pub fn with_env(self, key: &str, value: &str) -> (r: Self)
        ensures
            r.variables() == self.variables().push((key@, value@)),
    {
        let mut env = self.env;
        env.push((key.to_owned(), value.to_owned()));
        let r = SystemCommandRunner { env };
        assert(r.variables() =~= self.variables().push((key@, value@)));
        r
    }

    /// The variables that are set, in order.
    pub fn env(&self) -> (r: &[(String, String)])
        ensures
            r@.len() == self.variables().len(),
            forall|i: int| 0 <= i < r@.len() ==> (#[trigger] r@[i]).0@ == self.variables()[i].0
                && r@[i].1@ == self.variables()[i].1,
    {
        self.env.as_slice()
    }

    /// The error of a command that could not be started at all.
    pub fn not_started(program: &str, cause: &str) -> (r: Error)
        ensures
            r@ == plain_error(
                ErrorCode::HostRefused,
                "failed to run the host compositor control command"@,
            ).with("program"@, DetailView::Text(program@)).because(cause@),
    {
        Error::new(
            ErrorCode::HostRefused,
            "failed to run the host compositor control command",
            TraceId::unattributed(),
        ).with_detail("program", program).caused_by(cause)
    }
}

/// The output that a line of the listing names: the first word after `Monitor `.
pub open spec fn name_in_line(line: Seq<char>) -> Option<Seq<char>> {
    let head = "Monitor "@;
    if head.is_prefix_of(line) {
        first_word(line.skip(head.len() as int))
    } else {
        None
    }
}

/// The outputs that the lines name, in order.
pub open spec fn names_in_lines(lines: Seq<Seq<char>>) -> Seq<Seq<char>>
    decreases lines.len(),
{
    if lines.len() == 0 {
        Seq::empty()
    } else {
        let earlier = names_in_lines(lines.drop_last());
        match name_in_line(lines.last()) {
            Some(name) => earlier.push(name),
            None => earlier,
        }
    }
}

/// The outputs that a listing names, in order.
pub open spec fn listed_names(stdout: Seq<char>) -> Seq<Seq<char>> {
    names_in_lines(pieces(stdout, '\n'))
}

/// The outputs that a listing names, in order.
pub fn parse_monitor_names(stdout: &str) -> (r: Vec<String>)
    ensures
        texts(r@) == listed_names(stdout@),
{
    let text = chars_of(stdout);
    let lines = split_pieces(&text, '\n');
    let head = chars_of("Monitor ");
    let mut names: Vec<String> = Vec::new();
    let mut i: usize = 0;
    assert(rows(lines@).take(0) =~= Seq::<Seq<char>>::empty());
    assert(texts(names@) =~= Seq::<Seq<char>>::empty());
    while i < lines.len()
        invariant
            i <= lines.len(),
            head@ == "Monitor "@,
            texts(names@) == names_in_lines(rows(lines@).take(i as int)),
        decreases lines.len() - i,
    {
        let line = &lines[i];
        let ghost done = rows(lines@).take(i as int + 1);
        let ghost earlier = texts(names@);
        assert(done.drop_last() =~= rows(lines@).take(i as int));
        assert(done.last() == line@);
        if starts_with(line, &head) {
            match word_from(line, head.len()) {
                Some(word) => {
                    names.push(string_of(&word));
                    assert(texts(names@) =~= earlier.push(word@));
                },
                None => {},
            }
        }
        i = i + 1;
    }
    assert(rows(lines@).take(i as int) =~= rows(lines@));
    names
}

fn starts_with(s: &Vec<char>, head: &Vec<char>) -> (r: bool)
    ensures
        r == head@.is_prefix_of(s@),
        r ==> head@.len() <= s@.len(),
{
    if s.len() < head.len() {
        return false;
    }
    let mut i: usize = 0;
    while i < head.len()
        invariant
            i <= head.len(),
            head.len() <= s.len(),
            forall|j: int| 0 <= j < i ==> s@[j] == head@[j],
        decreases head.len() - i,
    {
        if s[i] != head[i] {
            assert(s@.subrange(0, head@.len() as int)[i as int] != head@[i as int]);
            return false;
        }
        i = i + 1;
    }
    assert(s@.subrange(0, head@.len() as int) =~= head@);
    true
}

/// No listed name is empty.
pub proof fn law_listed_names_are_not_empty(stdout: Seq<char>)
    ensures
        forall|i: int|
            0 <= i < listed_names(stdout).len() ==> (#[trigger] listed_names(stdout)[i]).len() > 0,
{
    lemma_names_are_not_empty(pieces(stdout, '\n'));
}

proof fn lemma_names_are_not_empty(lines: Seq<Seq<char>>)
    ensures
        forall|i: int|
            0 <= i < names_in_lines(lines).len() ==> (#[trigger] names_in_lines(lines)[i]).len()
                > 0,
    decreases lines.len(),
{
    if lines.len() > 0 {
        lemma_names_are_not_empty(lines.drop_last());
        let head = "Monitor "@;
        law_word_is_solid(lines.last().skip(head.len() as int));
        let earlier = names_in_lines(lines.drop_last());
        assert forall|i: int| 0 <= i < names_in_lines(lines).len() implies (
        #[trigger] names_in_lines(lines)[i]).len() > 0 by {
            if i < earlier.len() {
                assert(names_in_lines(lines)[i] == earlier[i]);
            }
        }
    }
}

/// The text of a string field in a flat JSON object, found by its key: what
/// stands between the first two quotation marks after the first colon after the
/// quoted key.
pub open spec fn string_field(chunk: Seq<char>, key: Seq<char>) -> Option<Seq<char>> {
    match after(chunk, seq!['"'] + key + seq!['"']) {
        None => None,
        Some(rest) => match after(rest, seq![':']) {
            None => None,
            Some(value) => match after(value, seq!['"']) {
                None => None,
                Some(text) => before(text, seq!['"']),
            },
        },
    }
}

/// The part of a chunk before its first closing brace, or all of it.
pub open spec fn object_body(chunk: Seq<char>) -> Seq<char> {
    match before(chunk, seq!['}']) {
        Some(body) => body,
        None => chunk,
    }
}

/// The instance of the first object whose socket is `display`.
pub open spec fn signature_in(chunks: Seq<Seq<char>>, display: Seq<char>) -> Option<Seq<char>>
    decreases chunks.len(),
{
    if chunks.len() == 0 {
        None
    } else {
        let body = object_body(chunks.first());
        if string_field(body, "wl_socket"@) == Some(display) {
            string_field(body, "instance"@)
        } else {
            signature_in(chunks.drop_first(), display)
        }
    }
}

/// The signature of the instance that serves `wayland_display`, in a listing of
/// instances.
pub fn parse_instance_signature(stdout: &str, wayland_display: &str) -> (r: Option<String>)
    ensures
        r is Some <==> signature_in(pieces(stdout@, '{').skip(1), wayland_display@) is Some,
        r matches Some(s) ==> signature_in(pieces(stdout@, '{').skip(1), wayland_display@) == Some(
            s@,
        ),
{
    let text = chars_of(stdout);
    let chunks = split_pieces(&text, '{');
    let mut close: Vec<char> = Vec::new();
    close.push('}');
    assert(close@ =~= seq!['}']);
    let ghost all = pieces(stdout@, '{').skip(1);
    proof {
        crate::scan::lemma_pieces_not_empty(stdout@, '{');
        assert(all.skip(0) =~= all);
    }
    let mut i: usize = 1;
    while i < chunks.len()
        invariant
            1 <= i <= chunks.len(),
            close@ == seq!['}'],
            rows(chunks@).skip(1) == all,
            all == pieces(stdout@, '{').skip(1),
            signature_in(all, wayland_display@) == signature_in(
                all.skip(i - 1),
                wayland_display@,
            ),
        decreases chunks.len() - i,
    {
        let ghost here = all.skip(i - 1);
        assert(here.first() == rows(chunks@).skip(1)[i - 1]);
        assert(here.first() == chunks@[i as int]@);
        assert(here.drop_first() =~= all.skip(i as int));
        let cut = text_before(&chunks[i], &close);
        let socket = match &cut {
            Some(body) => json_string_field(body, "wl_socket"),
            None => json_string_field(&chunks[i], "wl_socket"),
        };
        let found = match &socket {
            Some(s) => same_text(s.as_str(), wayland_display),
            None => false,
        };
        if found {
            return match &cut {
                Some(body) => json_string_field(body, "instance"),
                None => json_string_field(&chunks[i], "instance"),
            };
        }
        i = i + 1;
    }
    assert(all.skip(i - 1).len() == 0);
    None
}

fn json_string_field(chunk: &Vec<char>, key: &str) -> (r: Option<String>)
    ensures
        r is Some <==> string_field(chunk@, key@) is Some,
        r matches Some(s) ==> string_field(chunk@, key@) == Some(s@),
{
    let mut quote: Vec<char> = Vec::new();
    quote.push('"');
    assert(quote@ =~= seq!['"']);
    let mut colon: Vec<char> = Vec::new();
    colon.push(':');
    assert(colon@ =~= seq![':']);
    let mut needle_text = String::new();
    needle_text.push('"');
    needle_text.append(key);
    needle_text.push('"');
    assert(needle_text@ =~= seq!['"'] + key@ + seq!['"']);
    let needle = chars_of(needle_text.as_str());
    let rest = match text_after(chunk, &needle) {
        Some(v) => v,
        None => return None,
    };
    let value = match text_after(&rest, &colon) {
        Some(v) => v,
        None => return None,
    };
    let text = match text_after(&value, &quote) {
        Some(v) => v,
        None => return None,
    };
    match text_before(&text, &quote) {
        Some(v) => Some(string_of(&v)),
        None => None,
    }
}

/// The first line of `text`, without white space at either end.
pub open spec fn first_line_of(text: Seq<char>) -> Seq<char> {
    trimmed(pieces(text, '\n').first())
}

fn first_line(text: &str) -> (r: String)
    ensures
        r@ == first_line_of(text@),
{
    let chars = chars_of(text);
    let lines = split_pieces(&chars, '\n');
    proof {
        crate::scan::lemma_pieces_not_empty(text@, '\n');
        assert(rows(lines@).len() == lines@.len());
        assert(rows(lines@)[0] == lines@[0]@);
    }
    string_of(&trim(&lines[0]))
}

/// A `hyprctl` call with the given arguments.
pub open spec fn hyprctl_call(args: Seq<Seq<char>>, call: CallView) -> bool {
    call.program == "hyprctl"@ && call.args == args
}

/// The arguments that list the outputs.
pub open spec fn list_args() -> Seq<Seq<char>> {
    seq!["monitors"@]
}

/// The arguments that make a headless output.
pub open spec fn create_args() -> Seq<Seq<char>> {
    seq!["output"@, "create"@, "headless"@]
}

/// The arguments that remove an output.
pub open spec fn remove_args(name: Seq<char>) -> Seq<Seq<char>> {
    seq!["output"@, "remove"@, name]
}

/// The arguments that set an output's mode.
pub open spec fn mode_args(keyword: Seq<char>) -> Seq<Seq<char>> {
    seq!["keyword"@, "monitor"@, keyword]
}

/// What calls give an output back, and what is told of it: the outputs are
/// listed; an output that a successful listing does not name is gone already;
/// any other is removed.
pub open spec fn release_run(
    name: Seq<char>,
    calls: Seq<CallView>,
    outcome: Result<(), ErrorView>,
) -> bool {
    &&& calls.len() >= 1
    &&& hyprctl_call(list_args(), calls[0])
    &&& match calls[0].reply {
        Err(e) => calls.len() == 1 && outcome == Err::<(), ErrorView>(e),
        Ok(listed) => if listed.success() && !listed_names(listed.stdout).contains(name) {
            calls.len() == 1 && outcome is Ok
        } else {
            &&& calls.len() == 2
            &&& hyprctl_call(remove_args(name), calls[1])
            &&& match calls[1].reply {
                Err(e) => outcome == Err::<(), ErrorView>(e),
                Ok(removed) => if removed.success() {
                    outcome is Ok
                } else {
                    outcome == Err::<(), ErrorView>(
                        plain_error(
                            ErrorCode::ResourceReleaseFailed,
                            "hyprctl refused to remove the virtual output schorl created"@,
                        ).with("output"@, DetailView::Text(name)).with(
                            "stderr"@,
                            DetailView::Text(first_line_of(removed.stderr)),
                        ),
                    )
                },
            }
        },
    }
}

/// The calls that came after the first `start` ones.
pub open spec fn calls_since(calls: Seq<CallView>, start: nat) -> Seq<CallView> {
    calls.skip(start as int)
}

fn contains_name(names: &Vec<String>, name: &str) -> (r: bool)
    ensures
        r == texts(names@).contains(name@),
{
    let mut i: usize = 0;
    while i < names.len()
        invariant
            i <= names.len(),
            forall|j: int| 0 <= j < i ==> texts(names@)[j] != name@,
        decreases names.len() - i,
    {
        if same_text(names[i].as_str(), name) {
            assert(texts(names@)[i as int] == name@);
            return true;
        }
        i = i + 1;
    }
    false
}

fn run_hyprctl<R: CommandRunner>(runner: &mut R, args: Vec<&str>) -> (r: Result<
    CommandOutput,
    Error,
>)
    ensures
        final(runner).calls() == old(runner).calls().push(
            CallView { program: "hyprctl"@, args: arg_texts(args@), reply: reply_view(r) },
        ),
{
    runner.run("hyprctl", args.as_slice())
}

fn list_outputs<R: CommandRunner>(runner: &mut R) -> (r: Result<CommandOutput, Error>)
    ensures
        final(runner).calls() == old(runner).calls().push(
            CallView { program: "hyprctl"@, args: list_args(), reply: reply_view(r) },
        ),
{
    let args: Vec<&str> = vec!["monitors"];
    assert(arg_texts(args@) =~= list_args());
    run_hyprctl(runner, args)
}

fn release_output<R: CommandRunner>(runner: &mut R, id: &OutputId) -> (r: Result<(), Error>)
    ensures
        old(runner).calls().is_prefix_of(final(runner).calls()),
        release_run(
            id@,
            calls_since(final(runner).calls(), old(runner).calls().len()),
            done_view(r),
        ),
{
    let ghost start = runner.calls();
    let listed = match list_outputs(runner) {
        Ok(output) => output,
        Err(e) => {
            assert(calls_since(runner.calls(), start.len()) =~= seq![runner.calls().last()]);
            return Err(e);
        },
    };
    if listed.is_success() && !contains_name(
        &parse_monitor_names(listed.stdout.as_str()),
        id.as_str(),
    ) {
        assert(calls_since(runner.calls(), start.len()) =~= seq![runner.calls().last()]);
        return Ok(());
    }
    let ghost first = runner.calls().last();
    let args: Vec<&str> = vec!["output", "remove", id.as_str()];
    assert(arg_texts(args@) =~= remove_args(id@));
    let reply = run_hyprctl(runner, args);
    assert(calls_since(runner.calls(), start.len()) =~= seq![first, runner.calls().last()]);
    let removed = match reply {
        Ok(output) => output,
        Err(e) => return Err(e),
    };
    if removed.is_success() {
        return Ok(());
    }
    Err(
        Error::new(
            ErrorCode::ResourceReleaseFailed,
            "hyprctl refused to remove the virtual output schorl created",
            TraceId::unattributed(),
        ).with_detail("output", id.as_str()).with_detail(
            "stderr",
            first_line(removed.stderr.as_str()),
        ),
    )
}

/// Gives outputs back through `hyprctl`.
pub struct HyprctlOutputReleaser<R: CommandRunner> {
    runner: R,
    log: Ghost<Seq<ReleaseView>>,
}

impl<R: CommandRunner> HyprctlOutputReleaser<R> {
    /// The commands that were run so far.
    pub closed spec fn calls(&self) -> Seq<CallView> {
        self.runner.calls()
    }

    /// A releaser that runs its commands through `runner`.
    pub fn new(runner: R) -> (r: Self)
        ensures
            r.calls() == runner.calls(),
            r.asked() == Seq::<ReleaseView>::empty(),
    {
        HyprctlOutputReleaser { runner, log: Ghost(Seq::empty()) }
    }

    /// What runs the commands.
    pub fn runner(&self) -> (r: &R)
        ensures
            r.calls() == self.calls(),
    {
        &self.runner
    }
}

impl<R: CommandRunner> OutputRelease for HyprctlOutputReleaser<R> {
    closed spec fn asked(&self) -> Seq<ReleaseView> {
        self.log@
    }

    fn release(&mut self, id: &OutputId) -> (r: Result<(), Error>)
        ensures
            old(self).calls().is_prefix_of(final(self).calls()),
            release_run(
                id@,
                calls_since(final(self).calls(), old(self).calls().len()),
                done_view(r),
            ),
    {
        let r = release_output(&mut self.runner, id);
        self.log = Ghost(self.log@.push(ReleaseView { output: id@, outcome: done_view(r) }));
        r
    }
}

/// Hertz with up to three decimals, from thousandths, without trailing zeros.
pub open spec fn hertz_text(millihz: nat) -> Seq<char> {
    let whole = decimal(millihz / 1000);
    let rest = millihz % 1000;
    if rest == 0 {
        whole
    } else if rest % 100 == 0 {
        whole + seq!['.', digit_char(rest / 100)]
    } else if rest % 10 == 0 {
        whole + seq!['.', digit_char(rest / 100), digit_char(rest / 10 % 10)]
    } else {
        whole + seq!['.', digit_char(rest / 100), digit_char(rest / 10 % 10), digit_char(rest % 10)]
    }
}

/// The mode of an output: its name, its extent and rate, an automatic place and
/// a scale of one.
pub open spec fn mode_keyword(
    name: Seq<char>,
    width_px: nat,
    height_px: nat,
    refresh_millihz: nat,
) -> Seq<char> {
    name + ","@ + decimal(width_px) + "x"@ + decimal(height_px) + "@"@ + hertz_text(refresh_millihz)
        + ",auto,1"@
}

fn push_hertz(out: &mut String, millihz: u32)
    ensures
        final(out)@ == old(out)@ + hertz_text(millihz as nat),
{
    push_decimal(out, (millihz / 1000) as u64);
    let ghost whole = out@;
    let rest: u32 = millihz % 1000;
    if rest != 0 {
        out.push('.');
        out.push(digit((rest / 100) as u8));
        if rest % 100 != 0 {
            out.push(digit((rest / 10 % 10) as u8));
            if rest % 10 != 0 {
                out.push(digit((rest % 10) as u8));
            }
        }
    }
    proof {
        if rest % 100 == 0 {
            assert(rest % 10 == 0);
        }
        assert(out@ =~= old(out)@ + hertz_text(millihz as nat));
    }
}

/// The mode of an output, as `hyprctl keyword monitor` takes it.
pub fn monitor_keyword_value(
    name: &str,
    width_px: u32,
    height_px: u32,
    refresh_millihz: u32,
) -> (r: String)
    ensures
        r@ == mode_keyword(
            name@,
            width_px as nat,
            height_px as nat,
            refresh_millihz as nat,
        ),
{
    let mut out = String::new();
    out.append(name);
    out.append(",");
    push_decimal(&mut out, width_px as u64);
    out.append("x");
    push_decimal(&mut out, height_px as u64);
    out.append("@");
    push_hertz(&mut out, refresh_millihz);
    out.append(",auto,1");
    assert(out@ =~= mode_keyword(
        name@,
        width_px as nat,
        height_px as nat,
        refresh_millihz as nat,
    ));
    out
}

/// What a listing says: the names, or why there are none.
pub open spec fn listing_outcome(reply: Result<CommandOutputView, ErrorView>) -> Result<
    Seq<Seq<char>>,
    ErrorView,
> {
    match reply {
        Err(e) => Err(e),
        Ok(listed) => if listed.success() {
            Ok(listed_names(listed.stdout))
        } else {
            Err(
                plain_error(
                    ErrorCode::HostRefused,
                    "hyprctl could not list the host compositor outputs"@,
                ).with("stderr"@, DetailView::Text(first_line_of(listed.stderr))),
            )
        },
    }
}

/// The names of `later` that are not in `earlier`, in order.
pub open spec fn fresh_names(later: Seq<Seq<char>>, earlier: Seq<Seq<char>>) -> Seq<Seq<char>>
    decreases later.len(),
{
    if later.len() == 0 {
        Seq::empty()
    } else {
        let rest = fresh_names(later.drop_last(), earlier);
        if earlier.contains(later.last()) {
            rest
        } else {
            rest.push(later.last())
        }
    }
}

/// A fresh name was listed later and not earlier.
pub proof fn lemma_fresh_names(later: Seq<Seq<char>>, earlier: Seq<Seq<char>>)
    ensures
        forall|i: int|
            0 <= i < fresh_names(later, earlier).len() ==> later.contains(
                #[trigger] fresh_names(later, earlier)[i],
            ) && !earlier.contains(fresh_names(later, earlier)[i]),
    decreases later.len(),
{
    if later.len() > 0 {
        lemma_fresh_names(later.drop_last(), earlier);
        let rest = fresh_names(later.drop_last(), earlier);
        assert forall|i: int| 0 <= i < fresh_names(later, earlier).len() implies later.contains(
            #[trigger] fresh_names(later, earlier)[i],
        ) && !earlier.contains(fresh_names(later, earlier)[i]) by {
            if i < rest.len() {
                assert(fresh_names(later, earlier)[i] == rest[i]);
                let j = choose|j: int|
                    0 <= j < later.drop_last().len() && later.drop_last()[j] == rest[i];
                assert(later[j] == rest[i]);
            } else {
                assert(later[later.len() - 1] == fresh_names(later, earlier)[i]);
            }
        }
    }
}

/// What a request asks for.
pub struct RequestView {
    pub width_px: nat,
    pub height_px: nat,
    pub refresh_millihz: nat,
    pub key: Seq<char>,
}

/// What a request asks for.
pub open spec fn request_view(request: OutputRequest) -> RequestView {
    RequestView {
        width_px: request.width_px as nat,
        height_px: request.height_px as nat,
        refresh_millihz: request.refresh_millihz as nat,
        key: request.idempotency_key@.text,
    }
}

/// Why a request is refused before the host is asked, where it is.
pub open spec fn refused_at_once(request: RequestView, served: Seq<Seq<char>>) -> Option<ErrorView> {
    if request.width_px == 0 || request.height_px == 0 {
        Some(
            plain_error(
                ErrorCode::InvalidArgument,
                "a virtual output must have a non-zero extent"@,
            ),
        )
    } else if request.refresh_millihz == 0 {
        Some(
            plain_error(
                ErrorCode::InvalidArgument,
                "a virtual output must have a non-zero refresh rate"@,
            ),
        )
    } else if served.contains(request.key) {
        Some(
            plain_error(
                ErrorCode::InvalidArgument,
                "this idempotency key already created an output; schorl keeps exactly one"@,
            ).with("idempotency_key"@, DetailView::Text(request.key)),
        )
    } else {
        None
    }
}

/// What calls a request leads to, and what is told of it. The outcome is the name
/// of the output that was made, or the error.
pub open spec fn create_run(
    request: RequestView,
    served: Seq<Seq<char>>,
    calls: Seq<CallView>,
    outcome: Result<Seq<char>, ErrorView>,
) -> bool {
    match refused_at_once(request, served) {
        Some(e) => calls.len() == 0 && outcome == Err::<Seq<char>, ErrorView>(e),
        None => {
            &&& calls.len() >= 1
            &&& hyprctl_call(list_args(), calls[0])
            &&& match listing_outcome(calls[0].reply) {
                Err(e) => calls.len() == 1 && outcome == Err::<Seq<char>, ErrorView>(e),
                Ok(earlier) => run_after_listing(request, earlier, calls.skip(1), outcome),
            }
        },
    }
}

/// The part of [`create_run`] that makes the output.
pub open spec fn run_after_listing(
    request: RequestView,
    earlier: Seq<Seq<char>>,
    calls: Seq<CallView>,
    outcome: Result<Seq<char>, ErrorView>,
) -> bool {
    &&& calls.len() >= 1
    &&& hyprctl_call(create_args(), calls[0])
    &&& match calls[0].reply {
        Err(e) => calls.len() == 1 && outcome == Err::<Seq<char>, ErrorView>(e),
        Ok(created) => if created.success() {
            run_after_making(request, earlier, calls.skip(1), outcome)
        } else {
            calls.len() == 1 && outcome == Err::<Seq<char>, ErrorView>(
                plain_error(
                    ErrorCode::HostRefused,
                    "hyprctl refused to create a headless output"@,
                ).with("stderr"@, DetailView::Text(first_line_of(created.stderr))),
            )
        },
    }
}

/// The part of [`create_run`] that finds out which output is new.
pub open spec fn run_after_making(
    request: RequestView,
    earlier: Seq<Seq<char>>,
    calls: Seq<CallView>,
    outcome: Result<Seq<char>, ErrorView>,
) -> bool {
    &&& calls.len() >= 1
    &&& hyprctl_call(list_args(), calls[0])
    &&& match listing_outcome(calls[0].reply) {
        Err(e) => calls.len() == 1 && outcome == Err::<Seq<char>, ErrorView>(e),
        Ok(later) => {
            let fresh = fresh_names(later, earlier);
            if fresh.len() == 0 {
                calls.len() == 1 && outcome == Err::<Seq<char>, ErrorView>(
                    plain_error(
                        ErrorCode::HostRefused,
                        "hyprctl reported success but no new output appeared"@,
                    ),
                )
            } else if fresh.len() > 1 {
                calls.len() == 1 && outcome == Err::<Seq<char>, ErrorView>(
                    plain_error(
                        ErrorCode::HostRefused,
                        "more than one output appeared; schorl will not guess which one it owns"@,
                    ).with("appeared"@, DetailView::Int(fresh.len() as i64 as int)),
                )
            } else {
                run_after_naming(request, fresh[0], calls.skip(1), outcome)
            }
        },
    }
}

/// The part of [`create_run`] that sets the mode of the new output, and gives it
/// back where that fails.
pub open spec fn run_after_naming(
    request: RequestView,
    name: Seq<char>,
    calls: Seq<CallView>,
    outcome: Result<Seq<char>, ErrorView>,
) -> bool {
    let keyword = mode_keyword(name, request.width_px, request.height_px, request.refresh_millihz);
    &&& calls.len() >= 1
    &&& hyprctl_call(mode_args(keyword), calls[0])
    &&& match calls[0].reply {
        Err(e) => given_back(name, calls.skip(1)) && outcome == Err::<Seq<char>, ErrorView>(e),
        Ok(sized) => if sized.success() {
            calls.len() == 1 && outcome == Ok::<Seq<char>, ErrorView>(name)
        } else {
            given_back(name, calls.skip(1)) && outcome == Err::<Seq<char>, ErrorView>(
                plain_error(
                    ErrorCode::HostRefused,
                    "hyprctl refused the runtime mode for the output schorl created"@,
                ).with("keyword"@, DetailView::Text(keyword)).with(
                    "stderr"@,
                    DetailView::Text(first_line_of(sized.stderr)),
                ),
            )
        },
    }
}

/// Whether the calls are those that give an output back.
pub open spec fn given_back(name: Seq<char>, calls: Seq<CallView>) -> bool {
    exists|outcome: Result<(), ErrorView>| release_run(name, calls, outcome)
}

/// What came of a request.
pub open spec fn create_outcome(r: Result<VirtualOutput, Error>) -> Result<Seq<char>, ErrorView> {
    match r {
        Ok(output) => Ok(output.name()),
        Err(e) => Err(e@),
    }
}

/// Makes headless outputs through `hyprctl`, at most one for each key.
pub struct HyprlandHeadlessOutputProvider<R: CommandRunner> {
    releaser: HyprctlOutputReleaser<R>,
    served_keys: Vec<String>,
}

impl<R: CommandRunner> HyprlandHeadlessOutputProvider<R> {
    /// The commands that were run so far.
    pub closed spec fn calls(&self) -> Seq<CallView> {
        self.releaser.calls()
    }

    /// The keys that were claimed so far.
    pub closed spec fn served(&self) -> Seq<Seq<char>> {
        texts(self.served_keys@)
    }

    /// A provider that runs its commands through `runner`.
    pub fn new(runner: R) -> (r: Self)
        ensures
            r.calls() == runner.calls(),
            r.served() == Seq::<Seq<char>>::empty(),
    {
        let r = HyprlandHeadlessOutputProvider {
            releaser: HyprctlOutputReleaser::new(runner),
            served_keys: Vec::new(),
        };
        assert(r.served() =~= Seq::<Seq<char>>::empty());
        r
    }

    /// What gives the outputs back.
    pub fn releaser(&mut self) -> (r: &mut HyprctlOutputReleaser<R>)
        ensures
            r.calls() == old(self).calls(),
            final(self).calls() == final(r).calls(),
            final(self).served() == old(self).served(),
    {
        &mut self.releaser
    }

    /// What runs the commands.
    pub fn runner(&self) -> (r: &R)
        ensures
            r.calls() == self.calls(),
    {
        self.releaser.runner()
    }

    fn monitor_names(&mut self) -> (r: Result<Vec<String>, Error>)
        ensures
            final(self).served_keys == old(self).served_keys,
            final(self).calls().len() == old(self).calls().len() + 1,
            old(self).calls() == final(self).calls().drop_last(),
            hyprctl_call(list_args(), final(self).calls().last()),
            match listing_outcome(final(self).calls().last().reply) {
                Ok(names) => r is Ok && texts(r->Ok_0@) == names,
                Err(e) => r is Err && r->Err_0@ == e,
            },
    {
        let reply = list_outputs(&mut self.releaser.runner);
        assert(self.calls().drop_last() =~= old(self).calls());
        let listed = match reply {
            Ok(output) => output,
            Err(e) => return Err(e),
        };
        if !listed.is_success() {
            return Err(
                Error::new(
                    ErrorCode::HostRefused,
                    "hyprctl could not list the host compositor outputs",
                    TraceId::unattributed(),
                ).with_detail("stderr", first_line(listed.stderr.as_str())),
            );
        }
        Ok(parse_monitor_names(listed.stdout.as_str()))
    }

    fn claim_idempotency_key(&mut self, request: &OutputRequest) -> (r: Result<(), Error>)
        ensures
            final(self).releaser == old(self).releaser,
            r is Ok <==> !old(self).served().contains(request.idempotency_key@.text),
            r is Ok ==> final(self).served() == old(self).served().push(
                request.idempotency_key@.text,
            ),
            r matches Err(e) ==> final(self).served() == old(self).served() && e@ == plain_error(
                ErrorCode::InvalidArgument,
                "this idempotency key already created an output; schorl keeps exactly one"@,
            ).with("idempotency_key"@, DetailView::Text(request.idempotency_key@.text)),
    {
        let key = request.idempotency_key.as_str();
        if contains_name(&self.served_keys, key) {
            return Err(
                Error::new(
                    ErrorCode::InvalidArgument,
                    "this idempotency key already created an output; schorl keeps exactly one",
                    TraceId::unattributed(),
                ).with_detail("idempotency_key", key),
            );
        }
        self.served_keys.push(key.to_owned());
        assert(self.served() =~= old(self).served().push(request.idempotency_key@.text));
        Ok(())
    }
}

fn keep_fresh(later: Vec<String>, earlier: &Vec<String>) -> (r: Vec<String>)
    ensures
        texts(r@) == fresh_names(texts(later@), texts(earlier@)),
{
    let mut fresh: Vec<String> = Vec::new();
    let mut i: usize = 0;
    assert(texts(fresh@) =~= Seq::<Seq<char>>::empty());
    while i < later.len()
        invariant
            i <= later.len(),
            texts(fresh@) == fresh_names(texts(later@).take(i as int), texts(earlier@)),
        decreases later.len() - i,
    {
        let ghost done = texts(later@).take(i as int + 1);
        let ghost so_far = texts(fresh@);
        assert(done.drop_last() =~= texts(later@).take(i as int));
        assert(done.last() == later@[i as int]@);
        if !contains_name(earlier, later[i].as_str()) {
            fresh.push(later[i].clone());
            assert(texts(fresh@) =~= so_far.push(later@[i as int]@));
        }
        i = i + 1;
    }
    assert(texts(later@).take(i as int) =~= texts(later@));
    fresh
}

impl<R: CommandRunner> VirtualOutputProvider for HyprlandHeadlessOutputProvider<R> {
    fn create(&mut self, request: &OutputRequest) -> (r: Result<VirtualOutput, Error>)
        ensures
            old(self).calls().is_prefix_of(final(self).calls()),
            create_run(
                request_view(*request),
                old(self).served(),
                calls_since(final(self).calls(), old(self).calls().len()),
                create_outcome(r),
            ),
            r matches Ok(output) ==> output.held(),
            final(self).served() == (if refused_at_once(
                request_view(*request),
                old(self).served(),
            ) is None {
                old(self).served().push(request.idempotency_key@.text)
            } else {
                old(self).served()
            }),
    {
        let ghost start = self.calls().len();
        if request.width_px == 0 || request.height_px == 0 {
            return Err(
                Error::new(
                    ErrorCode::InvalidArgument,
                    "a virtual output must have a non-zero extent",
                    TraceId::unattributed(),
                ),
            );
        }
        if request.refresh_millihz == 0 {
            return Err(
                Error::new(
                    ErrorCode::InvalidArgument,
                    "a virtual output must have a non-zero refresh rate",
                    TraceId::unattributed(),
                ),
            );
        }
        match self.claim_idempotency_key(request) {
            Ok(_) => {},
            Err(e) => return Err(e),
        }
        let earlier = self.monitor_names();
        let ghost c0 = self.calls().last();
        let ghost k0 = self.calls();
        assert(k0.subrange(0, start as int) =~= old(self).calls());
        let earlier = match earlier {
            Ok(names) => names,
            Err(e) => {
                assert(calls_since(self.calls(), start) =~= seq![c0]);
                return Err(e);
            },
        };
        let args: Vec<&str> = vec!["output", "create", "headless"];
        assert(arg_texts(args@) =~= create_args());
        let reply = run_hyprctl(&mut self.releaser.runner, args);
        let ghost c1 = self.calls().last();
        let ghost k1 = self.calls();
        assert(k1.subrange(0, start as int) =~= k0.subrange(0, start as int));
        proof {
            assert(calls_since(self.calls(), start) =~= seq![c0, c1]);
            assert(seq![c0, c1].skip(1) =~= seq![c1]);
        }
        let created = match reply {
            Ok(output) => output,
            Err(e) => return Err(e),
        };
        if !created.is_success() {
            return Err(
                Error::new(
                    ErrorCode::HostRefused,
                    "hyprctl refused to create a headless output",
                    TraceId::unattributed(),
                ).with_detail("stderr", first_line(created.stderr.as_str())),
            );
        }
        let later = self.monitor_names();
        let ghost c2 = self.calls().last();
        let ghost k2 = self.calls();
        assert(k2.drop_last().subrange(0, start as int) =~= k2.subrange(0, start as int));
        proof {
            assert(calls_since(self.calls(), start) =~= seq![c0, c1, c2]);
            assert(seq![c0, c1, c2].skip(1) =~= seq![c1, c2]);
            assert(seq![c1, c2].skip(1) =~= seq![c2]);
        }
        let later = match later {
            Ok(names) => names,
            Err(e) => return Err(e),
        };
        let ghost later_names = texts(later@);
        let fresh = keep_fresh(later, &earlier);
        if fresh.len() == 0 {
            return Err(
                Error::new(
                    ErrorCode::HostRefused,
                    "hyprctl reported success but no new output appeared",
                    TraceId::unattributed(),
                ),
            );
        }
        if fresh.len() > 1 {
            return Err(
                Error::new(
                    ErrorCode::HostRefused,
                    "more than one output appeared; schorl will not guess which one it owns",
                    TraceId::unattributed(),
                ).with_detail("appeared", fresh.len() as i64),
            );
        }
        let ghost name = fresh_names(later_names, texts(earlier@))[0];
        proof {
            lemma_fresh_names(later_names, texts(earlier@));
            law_listed_names_are_not_empty(c2.reply->Ok_0.stdout);
            assert(texts(fresh@)[0] == fresh@[0]@);
        }
        let id = match OutputId::new(fresh[0].as_str()) {
            Ok(id) => id,
            Err(e) => return Err(e),
        };
        let held = VirtualOutput::new(id);
        let keyword = monitor_keyword_value(
            held.id().as_str(),
            request.width_px,
            request.height_px,
            request.refresh_millihz,
        );
        let args: Vec<&str> = vec!["keyword", "monitor", keyword.as_str()];
        assert(arg_texts(args@) =~= mode_args(keyword@));
        let reply = run_hyprctl(&mut self.releaser.runner, args);
        let ghost c3 = self.calls().last();
        let ghost mid = self.calls();
        proof {
            assert(calls_since(self.calls(), start) =~= seq![c0, c1, c2, c3]);
            assert(self.calls().subrange(0, start as int) =~= k2.subrange(0, start as int));
            assert(seq![c0, c1, c2, c3].skip(1) =~= seq![c1, c2, c3]);
            assert(seq![c1, c2, c3].skip(1) =~= seq![c2, c3]);
            assert(seq![c2, c3].skip(1) =~= seq![c3]);
        }
        let sized = match reply {
            Ok(output) => output,
            Err(e) => {
                let _ = release_output(&mut self.releaser.runner, held.id());
                proof {
                    assert(self.calls().subrange(0, start as int) =~= mid.subrange(0, start as int));
                    lemma_create_gives_back(start, mid, self.calls(), c0, c1, c2, c3);
                }
                return Err(e);
            },
        };
        if !sized.is_success() {
            let _ = release_output(&mut self.releaser.runner, held.id());
            proof {
                assert(self.calls().subrange(0, start as int) =~= mid.subrange(0, start as int));
                lemma_create_gives_back(start, mid, self.calls(), c0, c1, c2, c3);
            }
            return Err(
                Error::new(
                    ErrorCode::HostRefused,
                    "hyprctl refused the runtime mode for the output schorl created",
                    TraceId::unattributed(),
                ).with_detail("keyword", keyword).with_detail(
                    "stderr",
                    first_line(sized.stderr.as_str()),
                ),
            );
        }
        Ok(held)
    }

    fn declared_host_ops(&self) -> (r: Vec<HostOp>)
        ensures
            r@.len() == 3,
            r@[0].description@
                == "hyprctl output create headless (runtime only, removed on exit)"@,
            r@[1].description@
                == "hyprctl keyword monitor <name>,... (runtime keyword, no config file)"@,
            r@[2].description@ == "hyprctl output remove <name> (returns what schorl created)"@,
            runtime_only(r@),
    {
        let mut ops: Vec<HostOp> = Vec::new();
        ops.push(
            HostOp::runtime("hyprctl output create headless (runtime only, removed on exit)"),
        );
        ops.push(
            HostOp::runtime("hyprctl keyword monitor <name>,... (runtime keyword, no config file)"),
        );
        ops.push(HostOp::runtime("hyprctl output remove <name> (returns what schorl created)"));
        ops
    }
}

/// An output that was made is one that the host did not list before and lists
/// now: an output of somebody else is never taken.
pub proof fn law_made_output_is_new(
    request: RequestView,
    served: Seq<Seq<char>>,
    calls: Seq<CallView>,
    name: Seq<char>,
)
    requires
        create_run(request, served, calls, Ok::<Seq<char>, ErrorView>(name)),
    ensures
        calls.len() == 4,
        calls[0].reply is Ok,
        !listed_names(calls[0].reply->Ok_0.stdout).contains(name),
        calls[2].reply is Ok,
        listed_names(calls[2].reply->Ok_0.stdout).contains(name),
        hyprctl_call(create_args(), calls[1]),
{
    let earlier = listed_names(calls[0].reply->Ok_0.stdout);
    let later = listed_names(calls.skip(1).skip(1)[0].reply->Ok_0.stdout);
    assert(calls.skip(1).skip(1)[0] == calls[2]);
    lemma_fresh_names(later, earlier);
}

/// A request that fails after its output was found gives that output back.
pub proof fn law_half_made_output_is_given_back(
    request: RequestView,
    served: Seq<Seq<char>>,
    calls: Seq<CallView>,
    error: ErrorView,
)
    requires
        create_run(request, served, calls, Err::<Seq<char>, ErrorView>(error)),
        calls.len() > 3,
    ensures
        calls[0].reply is Ok,
        calls[2].reply is Ok,
        ({
            let fresh = fresh_names(
                listed_names(calls[2].reply->Ok_0.stdout),
                listed_names(calls[0].reply->Ok_0.stdout),
            );
            fresh.len() == 1 && given_back(fresh[0], calls.skip(4))
        }),
{
    assert(calls.skip(1).skip(1)[0] == calls[2]);
    assert(calls.skip(1).skip(1).skip(1).skip(1) =~= calls.skip(4));
}

/// A key that was claimed makes no second output, and the host is not even asked.
pub proof fn law_claimed_key_makes_nothing(
    request: RequestView,
    served: Seq<Seq<char>>,
    calls: Seq<CallView>,
    outcome: Result<Seq<char>, ErrorView>,
)
    requires
        served.contains(request.key),
        create_run(request, served, calls, outcome),
    ensures
        calls.len() == 0,
        outcome is Err,
{
}

/// Giving back an output that the host no longer lists removes nothing and
/// succeeds.
pub proof fn law_absent_output_is_released_quietly(
    name: Seq<char>,
    calls: Seq<CallView>,
    outcome: Result<(), ErrorView>,
)
    requires
        release_run(name, calls, outcome),
        calls[0].reply is Ok,
        calls[0].reply->Ok_0.success(),
        !listed_names(calls[0].reply->Ok_0.stdout).contains(name),
    ensures
        calls.len() == 1,
        outcome is Ok,
{
}

/// The calls of a run that gives its output back, cut into its parts.
proof fn lemma_create_gives_back(
    start: nat,
    mid: Seq<CallView>,
    end: Seq<CallView>,
    c0: CallView,
    c1: CallView,
    c2: CallView,
    c3: CallView,
)
    requires
        start + 4 == mid.len(),
        mid.skip(start as int) == seq![c0, c1, c2, c3],
        mid.is_prefix_of(end),
    ensures
        end.skip(start as int).len() >= 4,
        end.skip(start as int)[0] == c0,
        end.skip(start as int).skip(1)[0] == c1,
        end.skip(start as int).skip(1).skip(1)[0] == c2,
        end.skip(start as int).skip(1).skip(1).skip(1)[0] == c3,
        end.skip(start as int).skip(1).skip(1).skip(1).skip(1) == calls_since(end, mid.len()),
{
    let all = end.skip(start as int);
    let head = mid.skip(start as int);
    assert(head[0] == c0 && head[1] == c1 && head[2] == c2 && head[3] == c3);
    assert(all[0] == head[0] && all[1] == head[1] && all[2] == head[2] && all[3] == head[3]);
    assert(all.skip(1).skip(1).skip(1).skip(1) =~= end.skip(start as int + 4));
}

} // verus!

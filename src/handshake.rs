//! The startup handshake: a strictly ordered exchange of setup calls with the
//! remote, run once after connecting and before any user command.
//!
//! The exchange is a state machine. Each step hands the caller the next call
//! to make on the remote; the caller performs it and hands back the reply.
use vstd::prelude::*;
use vstd::string::StringExecFns;
use crate::channels::{ChannelInfo, channel_id_named, find_channel_id};
use crate::launch::LaunchError;

verus! {

/// Startup failures that end the process.
#[derive(PartialEq, Eq, Structural, Clone, Copy, Debug)]
pub enum Fatal {
    /// No editor binary was given or found.
    NoBinary,
    /// The editor binary cannot be run.
    NoPermission,
    /// The session could not be established.
    Connect,
    /// The remote did not answer the API metadata query.
    ApiInfo,
    /// The presence variable could not be set on the remote.
    SetVar,
    /// The UI surface could not be attached.
    Attach,
}

/// Why the handshake stopped short of attaching.
#[derive(PartialEq, Eq, Structural, Clone, Copy, Debug)]
pub enum Halt {
    Fatal(Fatal),
    /// The remote is too old; the user is told where to get a newer one.
    Incompatible,
}

pub open spec fn exit_code_of(h: Halt) -> int {
    match h {
        Halt::Incompatible => 0,
        Halt::Fatal(Fatal::ApiInfo) => -1,
        Halt::Fatal(_) => 1,
    }
}

/// The status the process exits with when the handshake halts: 0 for an
/// incompatible remote, -1 for a failed API query, 1 for the other failures.
pub fn exit_code(h: Halt) -> (r: i32)
    ensures
        r == exit_code_of(h),
{
    match h {
        Halt::Incompatible => 0,
        Halt::Fatal(Fatal::ApiInfo) => -1,
        Halt::Fatal(_) => 1,
    }
}

pub open spec fn fatal_of_launch(e: LaunchError) -> Fatal {
    match e {
        LaunchError::NotFound => Fatal::NoBinary,
        LaunchError::NoPermission => Fatal::NoPermission,
    }
}

/// The startup failure that a failed launch amounts to.
pub fn launch_failure(e: LaunchError) -> (r: Fatal)
    ensures
        r == fatal_of_launch(e),
{
    match e {
        LaunchError::NotFound => Fatal::NoBinary,
        LaunchError::NoPermission => Fatal::NoPermission,
    }
}

/// A launch that yields no runnable command ends the process with a non-zero
/// status, and does so before the handshake's first call.
pub proof fn lemma_launch_failure_exits_nonzero(e: LaunchError)
    ensures
        exit_code_of(Halt::Fatal(fatal_of_launch(e))) != 0,
{
}

/// Display options that the bridge sets on the remote.
#[derive(PartialEq, Eq, Structural, Clone, Copy, Debug)]
pub enum DisplayOption {
    LazyRedraw,
    TermGuiColors,
}

/// Capabilities requested when attaching the UI surface.
#[derive(PartialEq, Eq, Structural, Clone, Copy, Debug)]
pub struct UiOptions {
    pub rgb: bool,
    pub hlstate_external: bool,
    pub linegrid_external: bool,
    pub multigrid_external: bool,
}

pub open spec fn full_capabilities() -> UiOptions {
    UiOptions { rgb: true, hlstate_external: true, linegrid_external: true, multigrid_external: true }
}

/// Initial size of the attached surface, in cells.
pub const ATTACH_WIDTH: u64 = 80;

pub const ATTACH_HEIGHT: u64 = 24;

/// Version registered with the remote as this client's.
pub const CLIENT_MAJOR: u64 = 0;

pub const CLIENT_MINOR: u64 = 6;

/// A call to make on the remote, or the end of the handshake.
pub enum Call {
    /// Query the remote's API metadata.
    GetApiInfo,
    /// Evaluate the minimum-version predicate (`version_probe`).
    CheckVersion,
    /// Set the variable by which remote configuration detects this client.
    SetPresenceVar,
    /// Source the user's optional initialization script.
    SourceInitScript,
    /// Show the init script's error on the remote (`init_error_command`).
    ReportInitError(String),
    /// Register this client's name and version.
    SetClientInfo { major: u64, minor: u64 },
    /// List the remote's channels.
    ListChannels,
    SetOption { option: DisplayOption, value: bool },
    UiAttach { width: u64, height: u64, options: UiOptions },
    /// The UI is attached; `channel` is this client's own channel id.
    Ready { channel: u64 },
    /// Stop: the process exits with `exit_code` of the reason.
    Exit(Halt),
}

/// The reply to the last call.
pub enum Reply {
    /// The call succeeded with nothing to read.
    Ack,
    /// The call failed, with the error's text.
    Failed(String),
    /// The call returned this output.
    Output(String),
    /// The channel list, as read from the remote.
    Channels(Vec<ChannelInfo>),
}

/// Which reply the handshake waits for.
#[derive(PartialEq, Eq, Structural, Clone, Copy, Debug)]
pub enum Step {
    ApiInfo,
    Version,
    SetVar,
    InitScript,
    InitReport,
    ClientInfo,
    Channels,
    LazyRedraw,
    TermGuiColors,
    Attach,
    Attached,
    Halted,
}

pub struct Handshake {
    pub step: Step,
    /// This client's channel id, once discovered (0 until then, or if none matched).
    pub channel: u64,
}

/// The name this client registers under.
pub open spec fn client_name_text() -> Seq<char> {
    "neovide"@
}

/// The output of the version predicate on a compatible remote.
pub open spec fn compatible_output(s: Seq<char>) -> bool {
    s == seq!['1']
}

pub open spec fn is_done(h: Handshake) -> bool {
    h.step == Step::Attached || h.step == Step::Halted
}

pub open spec fn halt(h: Handshake, why: Halt) -> (Handshake, Call) {
    (Handshake { step: Step::Halted, ..h }, Call::Exit(why))
}

pub open spec fn goto(h: Handshake, step: Step, c: Call) -> (Handshake, Call) {
    (Handshake { step, ..h }, c)
}

/// One step of the handshake: the state after `reply`, and the next call.
pub open spec fn transition(h: Handshake, reply: Reply) -> (Handshake, Call) {
    match h.step {
        Step::ApiInfo => if reply is Ack {
            goto(h, Step::Version, Call::CheckVersion)
        } else {
            halt(h, Halt::Fatal(Fatal::ApiInfo))
        },
        Step::Version => if reply matches Reply::Output(s) && compatible_output(s@) {
            goto(h, Step::SetVar, Call::SetPresenceVar)
        } else {
            halt(h, Halt::Incompatible)
        },
        Step::SetVar => if reply is Ack {
            goto(h, Step::InitScript, Call::SourceInitScript)
        } else {
            halt(h, Halt::Fatal(Fatal::SetVar))
        },
        Step::InitScript => match reply {
            Reply::Failed(e) => goto(h, Step::InitReport, Call::ReportInitError(e)),
            _ => goto(
                h,
                Step::ClientInfo,
                Call::SetClientInfo { major: CLIENT_MAJOR, minor: CLIENT_MINOR },
            ),
        },
        Step::InitReport => goto(
            h,
            Step::ClientInfo,
            Call::SetClientInfo { major: CLIENT_MAJOR, minor: CLIENT_MINOR },
        ),
        Step::ClientInfo => goto(h, Step::Channels, Call::ListChannels),
        Step::Channels => {
            let channel = match reply {
                Reply::Channels(v) => channel_id_named(v@, client_name_text()),
                _ => 0,
            };
            (
                Handshake { step: Step::LazyRedraw, channel },
                Call::SetOption { option: DisplayOption::LazyRedraw, value: false },
            )
        },
        Step::LazyRedraw => goto(
            h,
            Step::TermGuiColors,
            Call::SetOption { option: DisplayOption::TermGuiColors, value: true },
        ),
        Step::TermGuiColors => goto(
            h,
            Step::Attach,
            Call::UiAttach {
                width: ATTACH_WIDTH,
                height: ATTACH_HEIGHT,
                options: full_capabilities(),
            },
        ),
        Step::Attach => if reply is Ack {
            goto(h, Step::Attached, Call::Ready { channel: h.channel })
        } else {
            halt(h, Halt::Fatal(Fatal::Attach))
        },
        // A finished handshake takes no reply: `advance` is never called there.
        Step::Attached | Step::Halted => (h, Call::Exit(Halt::Fatal(Fatal::Connect))),
    }
}

/// The command that evaluates the minimum-version predicate on the remote.
pub fn version_probe() -> (r: &'static str)
    ensures
        r@ == "echo has('nvim-0.6')"@,
{
    "echo has('nvim-0.6')"
}

/// The command that shows the init script's error `err` on the remote.
pub fn init_error_command(err: &str) -> (r: String)
    ensures
        r@ == "echomsg \"error encountered in ginit.vim "@ + err@ + "\""@,
{
    let mut s = String::from_str("echomsg \"error encountered in ginit.vim ");
    s.append(err);
    s.append("\"");
    s
}

/// The name this client registers under.
pub fn client_name() -> (r: String)
    ensures
        r@ == client_name_text(),
{
    String::from_str("neovide")
}

fn is_compatible(s: &String) -> (r: bool)
    ensures
        r == compatible_output(s@),
{
    let t = s.as_str();
    if t.unicode_len() != 1 {
        return false;
    }
    let c = t.get_char(0);
    let r = c == '1';
    assert(r ==> t@ =~= seq!['1']);
    r
}

impl Handshake {
    /// The handshake before its first call, and that call: the API query.
    pub fn start() -> (r: (Handshake, Call))
        ensures
            r.0 == (Handshake { step: Step::ApiInfo, channel: 0 }),
            r.1 is GetApiInfo,
    {
        (Handshake { step: Step::ApiInfo, channel: 0 }, Call::GetApiInfo)
    }

    /// Whether the handshake has attached the UI or halted.
    pub fn is_done(&self) -> (r: bool)
        ensures
            r == is_done(*self),
    {
        match self.step {
            Step::Attached | Step::Halted => true,
            _ => false,
        }
    }

    /// Takes the reply to the last call and gives the next call.
    pub fn advance(&mut self, reply: Reply) -> (c: Call)
        requires
            !is_done(*old(self)),
        ensures
            (*final(self), c) == transition(*old(self), reply),
    {
        match self.step {
            Step::ApiInfo => match reply {
                Reply::Ack => {
                    self.step = Step::Version;
                    Call::CheckVersion
                },
                _ => {
                    self.step = Step::Halted;
                    Call::Exit(Halt::Fatal(Fatal::ApiInfo))
                },
            },
            Step::Version => {
                let ok = match &reply {
                    Reply::Output(s) => is_compatible(s),
                    _ => false,
                };
                if ok {
                    self.step = Step::SetVar;
                    Call::SetPresenceVar
                } else {
                    self.step = Step::Halted;
                    Call::Exit(Halt::Incompatible)
                }
            },
            Step::SetVar => match reply {
                Reply::Ack => {
                    self.step = Step::InitScript;
                    Call::SourceInitScript
                },
                _ => {
                    self.step = Step::Halted;
                    Call::Exit(Halt::Fatal(Fatal::SetVar))
                },
            },
            Step::InitScript => match reply {
                Reply::Failed(e) => {
                    self.step = Step::InitReport;
                    Call::ReportInitError(e)
                },
                _ => {
                    self.step = Step::ClientInfo;
                    Call::SetClientInfo { major: CLIENT_MAJOR, minor: CLIENT_MINOR }
                },
            },
            Step::InitReport => {
                self.step = Step::ClientInfo;
                Call::SetClientInfo { major: CLIENT_MAJOR, minor: CLIENT_MINOR }
            },
            Step::ClientInfo => {
                self.step = Step::Channels;
                Call::ListChannels
            },
            Step::Channels => {
                self.channel = match &reply {
                    Reply::Channels(v) => find_channel_id(v, &client_name()),
                    _ => 0,
                };
                self.step = Step::LazyRedraw;
                Call::SetOption { option: DisplayOption::LazyRedraw, value: false }
            },
            Step::LazyRedraw => {
                self.step = Step::TermGuiColors;
                Call::SetOption { option: DisplayOption::TermGuiColors, value: true }
            },
            Step::TermGuiColors => {
                self.step = Step::Attach;
                Call::UiAttach {
                    width: ATTACH_WIDTH,
                    height: ATTACH_HEIGHT,
                    options: UiOptions {
                        rgb: true,
                        hlstate_external: true,
                        linegrid_external: true,
                        multigrid_external: true,
                    },
                }
            },
            Step::Attach => match reply {
                Reply::Ack => {
                    self.step = Step::Attached;
                    Call::Ready { channel: self.channel }
                },
                _ => {
                    self.step = Step::Halted;
                    Call::Exit(Halt::Fatal(Fatal::Attach))
                },
            },
            Step::Attached | Step::Halted => Call::Exit(Halt::Fatal(Fatal::Connect)),
        }
    }
}

/// The calls made when the handshake in state `h` is fed `replies` in turn,
/// up to the end of the handshake.
pub open spec fn calls(h: Handshake, replies: Seq<Reply>) -> Seq<Call>
    decreases replies.len(),
{
    if replies.len() == 0 || is_done(h) {
        seq![]
    } else {
        let (next, c) = transition(h, replies[0]);
        seq![c] + calls(next, replies.drop_first())
    }
}

/// Every call of a handshake from its start: the API query, then the calls
/// that the replies lead to.
pub open spec fn handshake_calls(replies: Seq<Reply>) -> Seq<Call> {
    seq![Call::GetApiInfo] + calls(Handshake { step: Step::ApiInfo, channel: 0 }, replies)
}

pub open spec fn stage(s: Step) -> nat {
    match s {
        Step::ApiInfo => 0,
        Step::Version => 1,
        Step::SetVar => 2,
        Step::InitScript => 3,
        Step::InitReport => 4,
        Step::ClientInfo => 5,
        Step::Channels => 6,
        Step::LazyRedraw => 7,
        Step::TermGuiColors => 8,
        Step::Attach => 9,
        Step::Attached => 10,
        Step::Halted => 11,
    }
}

/// The number of UI attachments among `cs`.
pub open spec fn attach_count(cs: Seq<Call>) -> nat
    decreases cs.len(),
{
    if cs.len() == 0 {
        0
    } else {
        (if cs[0] is UiAttach {
            1nat
        } else {
            0nat
        }) + attach_count(cs.drop_first())
    }
}

proof fn lemma_transition_advances(h: Handshake, reply: Reply)
    requires
        !is_done(h),
    ensures
        stage(transition(h, reply).0.step) > stage(h.step),
        transition(h, reply).0.step == Step::ClientInfo <==> transition(h, reply).1 is SetClientInfo,
        transition(h, reply).1 is UiAttach <==> h.step == Step::TermGuiColors,
        transition(h, reply).0.step != Step::Halted ==> stage(transition(h, reply).0.step)
            <= stage(h.step) + 2,
{
}

proof fn lemma_attach_after_client_info(h: Handshake, replies: Seq<Reply>, i: int)
    requires
        0 <= i < calls(h, replies).len(),
        calls(h, replies)[i] is UiAttach,
    ensures
        stage(h.step) >= 5 || exists|j: int| 0 <= j < i && calls(h, replies)[j] is SetClientInfo,
    decreases replies.len(),
{
    let (next, c) = transition(h, replies[0]);
    let rest = calls(next, replies.drop_first());
    assert(calls(h, replies) == seq![c] + rest);
    lemma_transition_advances(h, replies[0]);
    if i > 0 {
        assert(rest[i - 1] == calls(h, replies)[i]);
        lemma_attach_after_client_info(next, replies.drop_first(), i - 1);
        if next.step == Step::ClientInfo {
            assert(calls(h, replies)[0] is SetClientInfo);
        } else if stage(next.step) >= 5 {
            assert(!is_done(next));
        } else {
            let j = choose|j: int| 0 <= j < i - 1 && rest[j] is SetClientInfo;
            assert(calls(h, replies)[j + 1] is SetClientInfo);
        }
    }
}

/// The UI is attached only after the client has registered its name and
/// version, and the client registers only after the API query succeeded.
pub proof fn lemma_handshake_order(replies: Seq<Reply>, i: int)
    requires
        0 <= i < handshake_calls(replies).len(),
    ensures
        handshake_calls(replies)[i] is UiAttach ==> exists|j: int|
            0 <= j < i && handshake_calls(replies)[j] is SetClientInfo,
        handshake_calls(replies)[i] is SetClientInfo ==> replies[0] is Ack,
{
    let h = Handshake { step: Step::ApiInfo, channel: 0 };
    let all = handshake_calls(replies);
    if i > 0 {
        let cs = calls(h, replies);
        assert(all[i] == cs[i - 1]);
        if cs[i - 1] is UiAttach {
            lemma_attach_after_client_info(h, replies, i - 1);
            let j = choose|j: int| 0 <= j < i - 1 && cs[j] is SetClientInfo;
            assert(all[j + 1] is SetClientInfo);
        }
        if !(replies[0] is Ack) {
            assert(calls(transition(h, replies[0]).0, replies.drop_first()) == Seq::<Call>::empty());
            assert(cs =~= seq![Call::Exit(Halt::Fatal(Fatal::ApiInfo))]);
        }
    }
}

proof fn lemma_calls_unfold(h: Handshake, replies: Seq<Reply>)
    requires
        replies.len() > 0,
        !is_done(h),
    ensures
        calls(h, replies) == seq![transition(h, replies[0]).1] + calls(
            transition(h, replies[0]).0,
            replies.drop_first(),
        ),
        attach_count(calls(h, replies)) == (if transition(h, replies[0]).1 is UiAttach {
            1nat
        } else {
            0nat
        }) + attach_count(calls(transition(h, replies[0]).0, replies.drop_first())),
        forall|i: int|
            0 < i < calls(h, replies).len() ==> #[trigger] calls(h, replies)[i] == calls(
                transition(h, replies[0]).0,
                replies.drop_first(),
            )[i - 1],
{
    let cs = calls(h, replies);
    assert(cs.drop_first() =~= calls(transition(h, replies[0]).0, replies.drop_first()));
}

proof fn lemma_attach_at_most_once(h: Handshake, replies: Seq<Reply>)
    ensures
        attach_count(calls(h, replies)) <= (if stage(h.step) <= 8 {
            1nat
        } else {
            0nat
        }),
        forall|i: int|
            0 <= i < calls(h, replies).len() && (#[trigger] calls(h, replies)[i]) is UiAttach
                ==> calls(h, replies)[i] == (Call::UiAttach {
                width: ATTACH_WIDTH,
                height: ATTACH_HEIGHT,
                options: full_capabilities(),
            }),
    decreases replies.len(),
{
    if replies.len() > 0 && !is_done(h) {
        lemma_calls_unfold(h, replies);
        lemma_transition_advances(h, replies[0]);
        lemma_attach_at_most_once(transition(h, replies[0]).0, replies.drop_first());
    }
}

proof fn lemma_attach_reached(h: Handshake, replies: Seq<Reply>)
    requires
        3 <= stage(h.step) <= 8,
        replies.len() >= 9 - stage(h.step),
    ensures
        attach_count(calls(h, replies)) >= 1,
    decreases replies.len(),
{
    lemma_calls_unfold(h, replies);
    lemma_transition_advances(h, replies[0]);
    if h.step != Step::TermGuiColors {
        lemma_attach_reached(transition(h, replies[0]).0, replies.drop_first());
    }
}

/// Once the API query and the presence variable succeed and the version
/// predicate holds, a handshake that runs to its end attaches the UI exactly
/// once, with the fixed size and the full capability set; no handshake
/// attaches twice or with other capabilities.
pub proof fn lemma_attach_exactly_once(replies: Seq<Reply>)
    ensures
        attach_count(handshake_calls(replies)) <= 1,
        forall|i: int|
            0 <= i < handshake_calls(replies).len() && (#[trigger] handshake_calls(
                replies,
            )[i]) is UiAttach ==> handshake_calls(replies)[i] == (Call::UiAttach {
                width: ATTACH_WIDTH,
                height: ATTACH_HEIGHT,
                options: full_capabilities(),
            }),
        replies.len() >= 9 && replies[0] is Ack && (replies[1] matches Reply::Output(s)
            && compatible_output(s@)) && replies[2] is Ack ==> attach_count(
            handshake_calls(replies),
        ) == 1,
{
    let h0 = Handshake { step: Step::ApiInfo, channel: 0 };
    let all = handshake_calls(replies);
    assert(all.drop_first() =~= calls(h0, replies));
    lemma_attach_at_most_once(h0, replies);
    assert forall|i: int| 0 <= i < all.len() && (#[trigger] all[i]) is UiAttach implies all[i]
        == (Call::UiAttach {
        width: ATTACH_WIDTH,
        height: ATTACH_HEIGHT,
        options: full_capabilities(),
    }) by {
        assert(all[i] == calls(h0, replies)[i - 1]);
    }
    if replies.len() >= 9 && replies[0] is Ack && (replies[1] matches Reply::Output(s)
        && compatible_output(s@)) && replies[2] is Ack {
        lemma_calls_unfold(h0, replies);
        let h1 = transition(h0, replies[0]).0;
        let r1 = replies.drop_first();
        assert(r1[0] == replies[1]);
        lemma_calls_unfold(h1, r1);
        let h2 = transition(h1, r1[0]).0;
        let r2 = r1.drop_first();
        assert(r2[0] == replies[2]);
        lemma_calls_unfold(h2, r2);
        let h3 = transition(h2, r2[0]).0;
        let r3 = r2.drop_first();
        lemma_attach_reached(h3, r3);
    }
}

/// When the version predicate fails, the process exits with status 0 and
/// the UI is never attached.
pub proof fn lemma_incompatible_exits_cleanly(replies: Seq<Reply>)
    requires
        replies.len() >= 2,
        replies[0] is Ack,
        !(replies[1] matches Reply::Output(s) && compatible_output(s@)),
    ensures
        handshake_calls(replies) == seq![
            Call::GetApiInfo,
            Call::CheckVersion,
            Call::Exit(Halt::Incompatible),
        ],
        exit_code_of(Halt::Incompatible) == 0,
        attach_count(handshake_calls(replies)) == 0,
{
    let h0 = Handshake { step: Step::ApiInfo, channel: 0 };
    let h1 = transition(h0, replies[0]).0;
    let h2 = transition(h1, replies[1]).0;
    let r1 = replies.drop_first();
    let r2 = r1.drop_first();
    assert(r1[0] == replies[1]);
    assert(is_done(h2));
    assert(calls(h2, r2) == Seq::<Call>::empty());
    assert(calls(h1, r1) =~= seq![Call::Exit(Halt::Incompatible)]);
    assert(calls(h0, replies) =~= seq![Call::CheckVersion, Call::Exit(Halt::Incompatible)]);
    let all = handshake_calls(replies);
    assert(all =~= seq![Call::GetApiInfo, Call::CheckVersion, Call::Exit(Halt::Incompatible)]);
    reveal_with_fuel(attach_count, 4);
    assert(all.drop_first().drop_first().drop_first() =~= Seq::<Call>::empty());
    assert(all.drop_first().drop_first() =~= seq![Call::Exit(Halt::Incompatible)]);
}

} // verus!

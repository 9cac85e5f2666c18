//! Process runner: the invocation state machine that sequences the child
//! commands of an action and turns what happens to them into log messages.
//!
//! The shell around the library spawns the commands and reads their
//! streams; every decision — which chunk to publish with which style tag,
//! when to announce an outcome banner, whether to go on to the next step or
//! stop — is taken here, one event at a time.

use vstd::prelude::*;

verus! {

/// Which output stream of a child a piece of output came from. Chunks keep
/// this tag, so standard-error output is styled apart from standard output.
#[derive(Clone, Copy, PartialEq, Eq, Structural, Debug)]
pub enum StreamSource {
    Stdout,
    Stderr,
}

/// One command of an invocation plan: a program, its arguments, the label
/// under which its outcome is announced, and whether the operator's typed
/// input is forwarded to it.
pub struct CommandSpec {
    pub program: String,
    pub args: Vec<String>,
    pub label: &'static str,
    pub interactive: bool,
}

/// The specification-level value of a command.
#[verifier::ext_equal]
pub struct CommandModel {
    pub program: Seq<char>,
    pub args: Seq<Seq<char>>,
    pub label: Seq<char>,
    pub interactive: bool,
}

impl View for CommandSpec {
    type V = CommandModel;

    open spec fn view(&self) -> CommandModel {
        CommandModel {
            program: self.program@,
            args: self.args@.map_values(|a: String| a@),
            label: self.label@,
            interactive: self.interactive,
        }
    }
}

impl Clone for CommandSpec {
    /// A copy naming the same program, arguments and label.
    fn clone(&self) -> (r: Self)
        ensures
            r@ == self@,
    {
        let args = self.args.clone();
        proof {
            assert forall|i: int| 0 <= i < args@.len() implies args@[i] == self.args@[i] by {
                assert(cloned::<String>(self.args@[i], args@[i]));
            }
            assert(args@ =~= self.args@);
        }
        let r = CommandSpec {
            program: self.program.clone(),
            args,
            label: self.label,
            interactive: self.interactive,
        };
        proof {
            assert(r@ =~= self@);
        }
        r
    }
}

/// One entry of the output log.
pub enum OutputChunk {
    /// Raw bytes read from one of the child's streams, possibly holding
    /// terminal escape sequences; delivered one read at a time.
    Stream { source: StreamSource, bytes: Vec<u8> },
    /// The outcome banner of one step: its label, announced as finished or
    /// as failed.
    Banner { label: &'static str, success: bool },
    /// The blank line around a banner.
    Separator,
    /// An error message, styled as a failure.
    Notice { message: String },
    /// Text the operator typed while forwarding, echoed into the log.
    Echo { text: String },
}

/// The specification-level value of a log entry.
pub enum ChunkModel {
    Stream { source: StreamSource, bytes: Seq<u8> },
    Banner { label: Seq<char>, success: bool },
    Separator,
    Notice { message: Seq<char> },
    Echo { text: Seq<char> },
}

impl View for OutputChunk {
    type V = ChunkModel;

    open spec fn view(&self) -> ChunkModel {
        match self {
            OutputChunk::Stream { source, bytes } => ChunkModel::Stream {
                source: *source,
                bytes: bytes@,
            },
            OutputChunk::Banner { label, success } => ChunkModel::Banner {
                label: label@,
                success: *success,
            },
            OutputChunk::Separator => ChunkModel::Separator,
            OutputChunk::Notice { message } => ChunkModel::Notice { message: message@ },
            OutputChunk::Echo { text } => ChunkModel::Echo { text: text@ },
        }
    }
}

/// A message from an invocation to the event loop: a chunk for the log, or
/// an error to surface.
pub enum RunnerMsg {
    Chunk(OutputChunk),
    Error(String),
}

/// The specification-level value of a message.
pub enum MsgModel {
    Chunk(ChunkModel),
    Error(Seq<char>),
}

impl View for RunnerMsg {
    type V = MsgModel;

    open spec fn view(&self) -> MsgModel {
        match self {
            RunnerMsg::Chunk(c) => MsgModel::Chunk(c@),
            RunnerMsg::Error(m) => MsgModel::Error(m@),
        }
    }
}

/// What the shell reports about the step in progress: its spawn failed, a
/// read delivered bytes, a read failed, or the child exited.
pub enum RunnerEvent {
    SpawnFailed { message: String },
    Data { source: StreamSource, bytes: Vec<u8> },
    ReadFailed { source: StreamSource, message: String },
    Exited { success: bool },
}

/// The specification-level value of an event.
pub enum EventModel {
    SpawnFailed { message: Seq<char> },
    Data { source: StreamSource, bytes: Seq<u8> },
    ReadFailed { source: StreamSource, message: Seq<char> },
    Exited { success: bool },
}

impl View for RunnerEvent {
    type V = EventModel;

    open spec fn view(&self) -> EventModel {
        match self {
            RunnerEvent::SpawnFailed { message } => EventModel::SpawnFailed { message: message@ },
            RunnerEvent::Data { source, bytes } => EventModel::Data {
                source: *source,
                bytes: bytes@,
            },
            RunnerEvent::ReadFailed { source, message } => EventModel::ReadFailed {
                source: *source,
                message: message@,
            },
            RunnerEvent::Exited { success } => EventModel::Exited { success: *success },
        }
    }
}

/// What the shell must do next: keep waiting, spawn the given command as
/// the next step, or treat the invocation as over.
pub enum Directive {
    Wait,
    Spawn(CommandSpec),
    Finished { failed: bool },
}

/// The specification-level value of a directive; a spawn names the step it
/// starts.
pub enum DirectiveModel {
    Wait,
    SpawnStep(int),
    Finished { failed: bool },
}

/// The specification-level state of an invocation: the labels of its
/// steps, the step in progress, and whether it is over.
#[verifier::ext_equal]
pub struct InvState {
    pub labels: Seq<Seq<char>>,
    pub current: int,
    pub done: bool,
}

/// The state after an event. Only a spawn failure or an exit moves the
/// machine: a successful exit of a non-final step advances it, anything
/// else that ends a step ends the invocation.
pub open spec fn step_state(s: InvState, ev: EventModel) -> InvState {
    match ev {
        EventModel::Data { .. } => s,
        EventModel::ReadFailed { .. } => s,
        EventModel::SpawnFailed { .. } => if s.done {
            s
        } else {
            InvState { labels: s.labels, current: s.current, done: true }
        },
        EventModel::Exited { success } => if s.done {
            s
        } else if success && s.current + 1 < s.labels.len() {
            InvState { labels: s.labels, current: s.current + 1, done: false }
        } else {
            InvState { labels: s.labels, current: s.current, done: true }
        },
    }
}

/// The blank-line message around a banner.
pub open spec fn separator_msg() -> MsgModel {
    MsgModel::Chunk(ChunkModel::Separator)
}

/// An outcome banner message.
pub open spec fn banner_msg(label: Seq<char>, success: bool) -> MsgModel {
    MsgModel::Chunk(ChunkModel::Banner { label, success })
}

/// The messages an event publishes. Stream bytes and read errors pass
/// through unconditionally; an exit of a live step publishes its banner
/// between blank lines; a failure that ends the whole invocation on its
/// final step is also surfaced as an error, while a failure of an earlier
/// step stops quietly with only its banner.
pub open spec fn step_emits(s: InvState, ev: EventModel) -> Seq<MsgModel> {
    match ev {
        EventModel::Data { source, bytes } => seq![
            MsgModel::Chunk(ChunkModel::Stream { source, bytes }),
        ],
        EventModel::ReadFailed { source: _, message } => seq![MsgModel::Error(message)],
        EventModel::SpawnFailed { message } => if s.done || s.current + 1 < s.labels.len() {
            Seq::empty()
        } else {
            seq![MsgModel::Error(message)]
        },
        EventModel::Exited { success } => if s.done {
            Seq::empty()
        } else {
            let label = s.labels[s.current];
            if success {
                seq![separator_msg(), banner_msg(label, true), separator_msg()]
            } else if s.current + 1 < s.labels.len() {
                seq![separator_msg(), banner_msg(label, false), separator_msg()]
            } else {
                seq![
                    separator_msg(),
                    banner_msg(label, false),
                    separator_msg(),
                    MsgModel::Error(Seq::empty()),
                ]
            }
        },
    }
}

/// What the shell must do after an event: spawn the next step after a
/// successful non-final exit, stop after anything that ends the
/// invocation, and keep waiting otherwise.
pub open spec fn step_directive(s: InvState, ev: EventModel) -> DirectiveModel {
    match ev {
        EventModel::Data { .. } => DirectiveModel::Wait,
        EventModel::ReadFailed { .. } => DirectiveModel::Wait,
        EventModel::SpawnFailed { .. } => if s.done {
            DirectiveModel::Wait
        } else if s.current + 1 < s.labels.len() {
            DirectiveModel::Finished { failed: false }
        } else {
            DirectiveModel::Finished { failed: true }
        },
        EventModel::Exited { success } => if s.done {
            DirectiveModel::Wait
        } else if success {
            if s.current + 1 < s.labels.len() {
                DirectiveModel::SpawnStep(s.current + 1)
            } else {
                DirectiveModel::Finished { failed: false }
            }
        } else if s.current + 1 < s.labels.len() {
            DirectiveModel::Finished { failed: false }
        } else {
            DirectiveModel::Finished { failed: true }
        },
    }
}

/// Whether an executable directive realises a specification-level one over
/// the given steps.
pub open spec fn directive_matches(steps: Seq<CommandSpec>, d: Directive, dm: DirectiveModel) -> bool {
    match dm {
        DirectiveModel::Wait => d is Wait,
        DirectiveModel::SpawnStep(i) => 0 <= i < steps.len() && (d matches Directive::Spawn(c)
            && c@ == steps[i]@),
        DirectiveModel::Finished { failed } => (d matches Directive::Finished { failed: f } && f
            == failed),
    }
}

/// One invocation in flight: the planned steps, the step in progress, and
/// whether the invocation is over.
pub struct Invocation {
    pub steps: Vec<CommandSpec>,
    pub current: usize,
    pub done: bool,
}

impl Invocation {
    /// The step index stays inside the plan.
    pub open spec fn wf(&self) -> bool {
        self.current < self.steps.len()
    }

    /// The specification-level state this invocation is in.
    pub open spec fn model(&self) -> InvState {
        InvState {
            labels: self.steps@.map_values(|c: CommandSpec| c.label@),
            current: self.current as int,
            done: self.done,
        }
    }

    /// A fresh invocation at the first step of its plan.
    pub fn new(steps: Vec<CommandSpec>) -> (r: Self)
        requires
            steps.len() >= 1,
        ensures
            r.wf(),
            r.steps == steps,
            r.model() == (InvState {
                labels: steps@.map_values(|c: CommandSpec| c.label@),
                current: 0,
                done: false,
            }),
    {
        Invocation { steps, current: 0, done: false }
    }

    /// The command of the step in progress.
    pub fn current_command(&self) -> (r: &CommandSpec)
        requires
            self.wf(),
        ensures
            *r == self.steps@[self.current as int],
    {
        &self.steps[self.current]
    }

    /// Feed one event to the machine: the new state, the published
    /// messages and the directive all follow the specification transition.
    pub fn handle(&mut self, ev: RunnerEvent) -> (r: (Vec<RunnerMsg>, Directive))
        requires
            old(self).wf(),
        ensures
            final(self).wf(),
            final(self).steps == old(self).steps,
            final(self).model() == step_state(old(self).model(), ev@),
            r.0@.map_values(|m: RunnerMsg| m@) == step_emits(old(self).model(), ev@),
            directive_matches(old(self).steps@, r.1, step_directive(old(self).model(), ev@)),
    {
        let ghost s0 = self.model();
        let mut msgs: Vec<RunnerMsg> = Vec::new();
        match ev {
            RunnerEvent::Data { source, bytes } => {
                msgs.push(RunnerMsg::Chunk(OutputChunk::Stream { source, bytes }));
                proof {
                    assert(msgs@.map_values(|m: RunnerMsg| m@) =~= step_emits(s0, ev@));
                }
                (msgs, Directive::Wait)
            },
            RunnerEvent::ReadFailed { source: _, message } => {
                msgs.push(RunnerMsg::Error(message));
                proof {
                    assert(msgs@.map_values(|m: RunnerMsg| m@) =~= step_emits(s0, ev@));
                }
                (msgs, Directive::Wait)
            },
            RunnerEvent::SpawnFailed { message } => {
                if self.done {
                    proof {
                        assert(msgs@.map_values(|m: RunnerMsg| m@) =~= step_emits(s0, ev@));
                    }
                    (msgs, Directive::Wait)
                } else if self.current + 1 < self.steps.len() {
                    self.done = true;
                    proof {
                        assert(msgs@.map_values(|m: RunnerMsg| m@) =~= step_emits(s0, ev@));
                    }
                    (msgs, Directive::Finished { failed: false })
                } else {
                    self.done = true;
                    msgs.push(RunnerMsg::Error(message));
                    proof {
                        assert(msgs@.map_values(|m: RunnerMsg| m@) =~= step_emits(s0, ev@));
                    }
                    (msgs, Directive::Finished { failed: true })
                }
            },
            RunnerEvent::Exited { success } => {
                if self.done {
                    proof {
                        assert(msgs@.map_values(|m: RunnerMsg| m@) =~= step_emits(s0, ev@));
                    }
                    (msgs, Directive::Wait)
                } else {
                    let label = self.steps[self.current].label;
                    proof {
                        assert(label@ == s0.labels[s0.current]);
                    }
                    msgs.push(RunnerMsg::Chunk(OutputChunk::Separator));
                    msgs.push(RunnerMsg::Chunk(OutputChunk::Banner { label, success }));
                    msgs.push(RunnerMsg::Chunk(OutputChunk::Separator));
                    if success {
                        if self.current + 1 < self.steps.len() {
                            self.current = self.current + 1;
                            let cmd = self.steps[self.current].clone();
                            proof {
                                assert(msgs@.map_values(|m: RunnerMsg| m@) =~= step_emits(
                                    s0,
                                    ev@,
                                ));
                            }
                            (msgs, Directive::Spawn(cmd))
                        } else {
                            self.done = true;
                            proof {
                                assert(msgs@.map_values(|m: RunnerMsg| m@) =~= step_emits(
                                    s0,
                                    ev@,
                                ));
                            }
                            (msgs, Directive::Finished { failed: false })
                        }
                    } else {
                        self.done = true;
                        if self.current + 1 < self.steps.len() {
                            proof {
                                assert(msgs@.map_values(|m: RunnerMsg| m@) =~= step_emits(
                                    s0,
                                    ev@,
                                ));
                            }
                            (msgs, Directive::Finished { failed: false })
                        } else {
                            msgs.push(RunnerMsg::Error(String::new()));
                            proof {
                                assert(msgs@.map_values(|m: RunnerMsg| m@) =~= step_emits(
                                    s0,
                                    ev@,
                                ));
                            }
                            (msgs, Directive::Finished { failed: true })
                        }
                    }
                }
            },
        }
    }
}

/// Whether an event reports a child exit.
pub open spec fn is_exited(ev: EventModel) -> bool {
    ev is Exited
}

/// Whether an event reports a spawn failure.
pub open spec fn is_spawn_failed(ev: EventModel) -> bool {
    ev is SpawnFailed
}

/// The success flag of an exit event.
pub open spec fn exit_success(ev: EventModel) -> bool {
    match ev {
        EventModel::Exited { success } => success,
        _ => false,
    }
}

/// The state a fresh invocation of the given plan starts in: its first
/// step in progress.
pub open spec fn fresh_state(plan: Seq<CommandModel>) -> InvState {
    InvState {
        labels: plan.map_values(|c: CommandModel| c.label),
        current: 0,
        done: false,
    }
}

/// The messages a whole sequence of events publishes, starting in `s`.
pub open spec fn run_trace(s: InvState, evs: Seq<EventModel>) -> Seq<MsgModel>
    decreases evs.len(),
{
    if evs.len() == 0 {
        Seq::empty()
    } else {
        step_emits(s, evs[0]) + run_trace(step_state(s, evs[0]), evs.drop_first())
    }
}

/// The steps a sequence of events causes to be spawned, in order.
pub open spec fn trace_spawns(s: InvState, evs: Seq<EventModel>) -> Seq<int>
    decreases evs.len(),
{
    if evs.len() == 0 {
        Seq::empty()
    } else {
        (match step_directive(s, evs[0]) {
            DirectiveModel::SpawnStep(i) => seq![i],
            _ => Seq::empty(),
        }) + trace_spawns(step_state(s, evs[0]), evs.drop_first())
    }
}

/// The banners among a sequence of messages, each as its label and success
/// flag, in order.
pub open spec fn banners_of(msgs: Seq<MsgModel>) -> Seq<(Seq<char>, bool)>
    decreases msgs.len(),
{
    if msgs.len() == 0 {
        Seq::empty()
    } else {
        (match msgs[0] {
            MsgModel::Chunk(ChunkModel::Banner { label, success }) => seq![(label, success)],
            _ => Seq::empty(),
        }) + banners_of(msgs.drop_first())
    }
}

/// The payloads of the stream chunks from one source, in order.
pub open spec fn stream_bytes_of(msgs: Seq<MsgModel>, src: StreamSource) -> Seq<Seq<u8>>
    decreases msgs.len(),
{
    if msgs.len() == 0 {
        Seq::empty()
    } else {
        (match msgs[0] {
            MsgModel::Chunk(ChunkModel::Stream { source, bytes }) => if source == src {
                seq![bytes]
            } else {
                Seq::empty()
            },
            _ => Seq::empty(),
        }) + stream_bytes_of(msgs.drop_first(), src)
    }
}

/// The byte payloads delivered for one source, in order.
pub open spec fn data_payloads(evs: Seq<EventModel>, src: StreamSource) -> Seq<Seq<u8>>
    decreases evs.len(),
{
    if evs.len() == 0 {
        Seq::empty()
    } else {
        (match evs[0] {
            EventModel::Data { source, bytes } => if source == src {
                seq![bytes]
            } else {
                Seq::empty()
            },
            _ => Seq::empty(),
        }) + data_payloads(evs.drop_first(), src)
    }
}

/// `banners_of` distributes over concatenation.
proof fn lemma_banners_of_concat(a: Seq<MsgModel>, b: Seq<MsgModel>)
    ensures
        banners_of(a + b) == banners_of(a) + banners_of(b),
    decreases a.len(),
{
    if a.len() == 0 {
        assert(a + b =~= b);
        assert(banners_of(a) + banners_of(b) =~= banners_of(b));
    } else {
        assert((a + b).drop_first() =~= a.drop_first() + b);
        lemma_banners_of_concat(a.drop_first(), b);
        assert((a + b)[0] == a[0]);
        assert(banners_of(a + b) =~= banners_of(a) + banners_of(b));
    }
}

/// `stream_bytes_of` distributes over concatenation.
proof fn lemma_stream_bytes_of_concat(a: Seq<MsgModel>, b: Seq<MsgModel>, src: StreamSource)
    ensures
        stream_bytes_of(a + b, src) == stream_bytes_of(a, src) + stream_bytes_of(b, src),
    decreases a.len(),
{
    if a.len() == 0 {
        assert(a + b =~= b);
        assert(stream_bytes_of(a, src) + stream_bytes_of(b, src) =~= stream_bytes_of(b, src));
    } else {
        assert((a + b).drop_first() =~= a.drop_first() + b);
        lemma_stream_bytes_of_concat(a.drop_first(), b, src);
        assert((a + b)[0] == a[0]);
        assert(stream_bytes_of(a + b, src) =~= stream_bytes_of(a, src) + stream_bytes_of(
            b,
            src,
        ));
    }
}

/// What one event emits holds a banner only when the event is an exit of a
/// live step, and then exactly that step's banner.
proof fn lemma_banners_of_step(s: InvState, ev: EventModel)
    ensures
        is_exited(ev) && !s.done && 0 <= s.current < s.labels.len() ==> banners_of(
            step_emits(s, ev),
        ) == seq![(s.labels[s.current], exit_success(ev))],
        !is_exited(ev) || s.done ==> banners_of(step_emits(s, ev)) == Seq::<(
            Seq<char>,
            bool,
        )>::empty(),
{
    reveal_with_fuel(banners_of, 6);
    let e = step_emits(s, ev);
    match ev {
        EventModel::Data { source, bytes } => {
            assert(e.drop_first() =~= Seq::<MsgModel>::empty());
            assert(banners_of(e) =~= Seq::<(Seq<char>, bool)>::empty());
        },
        EventModel::ReadFailed { .. } => {
            assert(e.drop_first() =~= Seq::<MsgModel>::empty());
            assert(banners_of(e) =~= Seq::<(Seq<char>, bool)>::empty());
        },
        EventModel::SpawnFailed { .. } => {
            if s.done || s.current + 1 < s.labels.len() {
                assert(banners_of(e) =~= Seq::<(Seq<char>, bool)>::empty());
            } else {
                assert(e.drop_first() =~= Seq::<MsgModel>::empty());
                assert(banners_of(e) =~= Seq::<(Seq<char>, bool)>::empty());
            }
        },
        EventModel::Exited { success } => {
            if s.done {
                assert(banners_of(e) =~= Seq::<(Seq<char>, bool)>::empty());
            } else {
                let label = s.labels[s.current];
                if success || s.current + 1 < s.labels.len() {
                    let t2 = seq![banner_msg(label, success), separator_msg()];
                    let t1 = seq![separator_msg()];
                    assert(e.drop_first() =~= t2);
                    assert(t2.drop_first() =~= t1);
                    assert(t1.drop_first() =~= Seq::<MsgModel>::empty());
                    assert(banners_of(e) =~= seq![(label, success)]);
                } else {
                    let err = MsgModel::Error(Seq::empty());
                    let t3 = seq![banner_msg(label, false), separator_msg(), err];
                    let t2 = seq![separator_msg(), err];
                    let t1 = seq![err];
                    assert(e.drop_first() =~= t3);
                    assert(t3.drop_first() =~= t2);
                    assert(t2.drop_first() =~= t1);
                    assert(t1.drop_first() =~= Seq::<MsgModel>::empty());
                    assert(banners_of(e) =~= seq![(label, false)]);
                }
            }
        },
    }
}

/// What one event emits holds a stream chunk only when the event delivers
/// stream bytes, and then exactly that payload under the same source tag.
proof fn lemma_stream_bytes_of_step(s: InvState, ev: EventModel, src: StreamSource)
    ensures
        stream_bytes_of(step_emits(s, ev), src) == data_payloads(seq![ev], src),
{
    reveal_with_fuel(stream_bytes_of, 6);
    reveal_with_fuel(data_payloads, 2);
    let e = step_emits(s, ev);
    assert(seq![ev].drop_first() =~= Seq::<EventModel>::empty());
    match ev {
        EventModel::Data { source, bytes } => {
            assert(e.drop_first() =~= Seq::<MsgModel>::empty());
            if source == src {
                assert(stream_bytes_of(e, src) =~= seq![bytes]);
                assert(data_payloads(seq![ev], src) =~= seq![bytes]);
            } else {
                assert(stream_bytes_of(e, src) =~= Seq::<Seq<u8>>::empty());
                assert(data_payloads(seq![ev], src) =~= Seq::<Seq<u8>>::empty());
            }
        },
        EventModel::ReadFailed { .. } => {
            assert(e.drop_first() =~= Seq::<MsgModel>::empty());
            assert(stream_bytes_of(e, src) =~= Seq::<Seq<u8>>::empty());
            assert(data_payloads(seq![ev], src) =~= Seq::<Seq<u8>>::empty());
        },
        EventModel::SpawnFailed { .. } => {
            if s.done || s.current + 1 < s.labels.len() {
            } else {
                assert(e.drop_first() =~= Seq::<MsgModel>::empty());
            }
            assert(stream_bytes_of(e, src) =~= Seq::<Seq<u8>>::empty());
            assert(data_payloads(seq![ev], src) =~= Seq::<Seq<u8>>::empty());
        },
        EventModel::Exited { success } => {
            if s.done {
            } else {
                let label = s.labels[s.current];
                if success || s.current + 1 < s.labels.len() {
                    let t2 = seq![banner_msg(label, success), separator_msg()];
                    let t1 = seq![separator_msg()];
                    assert(e.drop_first() =~= t2);
                    assert(t2.drop_first() =~= t1);
                    assert(t1.drop_first() =~= Seq::<MsgModel>::empty());
                } else {
                    let err = MsgModel::Error(Seq::empty());
                    let t3 = seq![banner_msg(label, false), separator_msg(), err];
                    let t2 = seq![separator_msg(), err];
                    let t1 = seq![err];
                    assert(e.drop_first() =~= t3);
                    assert(t3.drop_first() =~= t2);
                    assert(t2.drop_first() =~= t1);
                    assert(t1.drop_first() =~= Seq::<MsgModel>::empty());
                }
            }
            assert(stream_bytes_of(e, src) =~= Seq::<Seq<u8>>::empty());
            assert(data_payloads(seq![ev], src) =~= Seq::<Seq<u8>>::empty());
        },
    }
}

/// Events that report no exit publish no banner.
proof fn lemma_no_exit_no_banner(s: InvState, evs: Seq<EventModel>)
    requires
        forall|j: int| 0 <= j < evs.len() ==> !is_exited(evs[j]),
    ensures
        banners_of(run_trace(s, evs)) == Seq::<(Seq<char>, bool)>::empty(),
    decreases evs.len(),
{
    if evs.len() > 0 {
        lemma_banners_of_step(s, evs[0]);
        lemma_banners_of_concat(step_emits(s, evs[0]), run_trace(step_state(s, evs[0]), evs.drop_first()));
        lemma_no_exit_no_banner(step_state(s, evs[0]), evs.drop_first());
        assert(banners_of(run_trace(s, evs)) =~= Seq::<(Seq<char>, bool)>::empty());
    }
}

/// A finished invocation publishes no banner and spawns nothing, whatever
/// events still arrive.
proof fn lemma_done_inert(s: InvState, evs: Seq<EventModel>)
    requires
        s.done,
    ensures
        banners_of(run_trace(s, evs)) == Seq::<(Seq<char>, bool)>::empty(),
        trace_spawns(s, evs) == Seq::<int>::empty(),
    decreases evs.len(),
{
    if evs.len() > 0 {
        lemma_banners_of_step(s, evs[0]);
        lemma_banners_of_concat(step_emits(s, evs[0]), run_trace(step_state(s, evs[0]), evs.drop_first()));
        lemma_done_inert(step_state(s, evs[0]), evs.drop_first());
        assert(banners_of(run_trace(s, evs)) =~= Seq::<(Seq<char>, bool)>::empty());
        assert(trace_spawns(s, evs) =~= Seq::<int>::empty());
    }
}

/// One exit, one banner: when the delivered events hold exactly one child
/// exit and no spawn failure, the trace holds exactly one outcome banner —
/// the label of the step that was in progress, finished or failed as the
/// exit status says. In particular a build that exits with status zero is
/// announced by one success banner and no failure banner, and a non-zero
/// exit by one failure banner and no success banner.
pub proof fn lemma_single_exit_single_banner(s: InvState, evs: Seq<EventModel>, k: int)
    requires
        !s.done,
        0 <= s.current < s.labels.len(),
        0 <= k < evs.len(),
        is_exited(evs[k]),
        forall|j: int| 0 <= j < evs.len() && j != k ==> !is_exited(evs[j]),
        forall|j: int| 0 <= j < evs.len() ==> !is_spawn_failed(evs[j]),
    ensures
        banners_of(run_trace(s, evs)) == seq![(s.labels[s.current], exit_success(evs[k]))],
    decreases evs.len(),
{
    let s1 = step_state(s, evs[0]);
    let rest = evs.drop_first();
    lemma_banners_of_step(s, evs[0]);
    lemma_banners_of_concat(step_emits(s, evs[0]), run_trace(s1, rest));
    if k == 0 {
        assert(forall|j: int| 0 <= j < rest.len() ==> rest[j] == evs[j + 1]);
        lemma_no_exit_no_banner(s1, rest);
        assert(banners_of(run_trace(s, evs)) =~= seq![(s.labels[s.current], exit_success(evs[0]))]);
    } else {
        assert(!is_exited(evs[0]) && !is_spawn_failed(evs[0]));
        assert(s1 == s);
        assert(forall|j: int| 0 <= j < rest.len() ==> rest[j] == evs[j + 1]);
        lemma_single_exit_single_banner(s1, rest, k - 1);
        assert(banners_of(run_trace(s, evs)) =~= seq![(s.labels[s.current], exit_success(evs[k]))]);
    }
}

/// A failing exit of a non-final step ends the invocation quietly: its
/// failure banner is the only banner the trace ever holds, and no further
/// step is ever spawned — whatever events still arrive afterwards. In
/// particular a Run or Debug invocation whose build step fails announces
/// only the build failure and never starts the target binary.
pub proof fn lemma_nonfinal_failure_stops(s: InvState, evs: Seq<EventModel>, k: int)
    requires
        !s.done,
        0 <= s.current,
        s.current + 1 < s.labels.len(),
        0 <= k < evs.len(),
        evs[k] == (EventModel::Exited { success: false }),
        forall|j: int| 0 <= j < k ==> !is_exited(evs[j]) && !is_spawn_failed(evs[j]),
    ensures
        banners_of(run_trace(s, evs)) == seq![(s.labels[s.current], false)],
        trace_spawns(s, evs) == Seq::<int>::empty(),
    decreases evs.len(),
{
    let s1 = step_state(s, evs[0]);
    let rest = evs.drop_first();
    lemma_banners_of_step(s, evs[0]);
    lemma_banners_of_concat(step_emits(s, evs[0]), run_trace(s1, rest));
    if k == 0 {
        assert(s1.done);
        lemma_done_inert(s1, rest);
        assert(banners_of(run_trace(s, evs)) =~= seq![(s.labels[s.current], false)]);
        assert(trace_spawns(s, evs) =~= Seq::<int>::empty());
    } else {
        assert(!is_exited(evs[0]) && !is_spawn_failed(evs[0]));
        assert(s1 == s);
        assert(forall|j: int| 0 <= j < rest.len() ==> rest[j] == evs[j + 1]);
        lemma_nonfinal_failure_stops(s1, rest, k - 1);
        assert(banners_of(run_trace(s, evs)) =~= seq![(s.labels[s.current], false)]);
        assert(trace_spawns(s, evs) =~= Seq::<int>::empty());
    }
}

/// Stream chunks reproduce the delivered bytes: for either stream, the
/// chunk payloads in the trace are exactly the byte payloads of that
/// stream's read events, in the same order. Each chunk keeps its source
/// tag, so standard-error chunks stay distinguishable from standard-output
/// chunks, and the bytes inside one chunk are passed on unchanged.
pub proof fn lemma_stream_order(s: InvState, evs: Seq<EventModel>, src: StreamSource)
    ensures
        stream_bytes_of(run_trace(s, evs), src) == data_payloads(evs, src),
    decreases evs.len(),
{
    if evs.len() > 0 {
        reveal_with_fuel(data_payloads, 3);
        let s1 = step_state(s, evs[0]);
        let rest = evs.drop_first();
        lemma_stream_bytes_of_step(s, evs[0], src);
        lemma_stream_bytes_of_concat(step_emits(s, evs[0]), run_trace(s1, rest), src);
        lemma_stream_order(s1, rest, src);
        assert(seq![evs[0]].drop_first() =~= Seq::<EventModel>::empty());
        assert(data_payloads(seq![evs[0]], src) + data_payloads(rest, src) =~= data_payloads(
            evs,
            src,
        ));
        assert(stream_bytes_of(run_trace(s, evs), src) =~= data_payloads(evs, src));
    }
}

} // verus!

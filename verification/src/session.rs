//! The two-agent conversation orchestrator: a turn-taking state machine over
//! an append-only transcript, with cooperative cancellation sampled only at
//! turn boundaries.
//!
//! The laws proved here: `lemma_turn_alternation` (agent entries strictly
//! alternate, starting with agent A, one per completed turn),
//! `lemma_cancellation_boundary` (a stop noticed mid-turn lets that turn
//! finish and be appended; only the next turn is skipped), and
//! `lemma_max_turns` (with no stop and no error a session performs exactly
//! `max_turns` turns, appends each response, and then reports that the turn
//! budget is spent).

use vstd::prelude::*;
use crate::signal::{CancelFlag, is_stop_requested, reset_stop_flag};

verus! {

#[derive(Clone, Copy, PartialEq, Eq, Structural, Debug)]
pub enum Speaker {
    AgentA,
    AgentB,
}

#[derive(Clone, Copy, PartialEq, Eq, Structural, Debug)]
pub enum Role {
    System,
    User,
    Agent(Speaker),
}

/// One transcript entry; immutable once appended.
pub struct Message {
    pub role: Role,
    pub content: Vec<u8>,
}

pub struct MessageV {
    pub role: Role,
    pub content: Seq<u8>,
}

impl View for Message {
    type V = MessageV;

    open spec fn view(&self) -> MessageV {
        MessageV { role: self.role, content: self.content@ }
    }
}

/// Views of a transcript's entries.
pub open spec fn messages_view(v: Vec<Message>) -> Seq<MessageV> {
    Seq::new(
        v@.len(),
        |i: int|
            if 0 <= i < v@.len() {
                v[i]@
            } else {
                MessageV { role: Role::System, content: Seq::empty() }
            },
    )
}

/// One agent's configuration for the life of a session: which backend it
/// speaks through, as which model, and under which persona.  Fixed at setup,
/// never shared or changed afterwards.
pub struct AgentBinding {
    pub provider: Vec<u8>,
    pub model: Vec<u8>,
    pub persona: Vec<u8>,
}

#[derive(Clone, Copy, PartialEq, Eq, Structural, Debug)]
pub enum FinishReason {
    MaxTurnsReached,
    Cancelled,
    Error,
}

#[derive(Clone, Copy, PartialEq, Eq, Structural, Debug)]
pub enum SessionPhase {
    /// Between turns: the next turn may start.
    Ready,
    /// A provider call for the current turn is in flight.
    InTurn,
    /// The session is over.
    Finished(FinishReason),
}

/// Model of a session.
pub struct SessionModel {
    pub transcript: Seq<MessageV>,
    pub max_turns: int,
    pub turns_done: int,
    pub speaker: Speaker,
    pub phase: SessionPhase,
}

/// Who speaks on turn `i` (counting from zero): agent A opens, then they
/// strictly alternate.
pub open spec fn sp_turn_speaker(i: int) -> Speaker {
    if i % 2 == 0 {
        Speaker::AgentA
    } else {
        Speaker::AgentB
    }
}

pub open spec fn sp_other(s: Speaker) -> Speaker {
    match s {
        Speaker::AgentA => Speaker::AgentB,
        Speaker::AgentB => Speaker::AgentA,
    }
}

/// Session states the executable orchestrator can be in: the transcript is
/// the two seed entries followed by one entry per completed turn, with the
/// agent roles strictly alternating from agent A on.
pub open spec fn sp_session_wf(m: SessionModel) -> bool {
    &&& m.transcript.len() == m.turns_done + 2
    &&& 0 <= m.turns_done <= m.max_turns <= 0xffff_ffff
    &&& m.transcript[0].role == Role::System
    &&& m.transcript[1].role == Role::User
    &&& (forall|i: int|
        0 <= i < m.turns_done ==> m.transcript[2 + i].role == Role::Agent(sp_turn_speaker(i)))
    &&& m.speaker == sp_turn_speaker(m.turns_done)
    &&& (m.phase is InTurn ==> m.turns_done < m.max_turns)
}

/// A fresh session: the transcript is seeded with the first agent's persona
/// as the system entry and the topic as the user entry; agent A speaks first.
pub open spec fn sp_new_session(persona_a: Seq<u8>, topic: Seq<u8>, max_turns: u32) -> SessionModel {
    SessionModel {
        transcript: seq![
            MessageV { role: Role::System, content: persona_a },
            MessageV { role: Role::User, content: topic },
        ],
        max_turns: max_turns as int,
        turns_done: 0,
        speaker: Speaker::AgentA,
        phase: SessionPhase::Ready,
    }
}

/// Label under which a transcript entry is rendered into a prompt.
pub open spec fn sp_role_label(r: Role) -> Seq<u8> {
    match r {
        Role::System => seq![0x73u8, 0x79u8, 0x73u8, 0x74u8, 0x65u8, 0x6du8],
        Role::User => seq![0x75u8, 0x73u8, 0x65u8, 0x72u8],
        Role::Agent(Speaker::AgentA) => seq![0x4cu8, 0x4cu8, 0x4du8, 0x5fu8, 0x31u8],
        Role::Agent(Speaker::AgentB) => seq![0x4cu8, 0x4cu8, 0x4du8, 0x5fu8, 0x32u8],
    }
}

/// One transcript entry rendered as `label: content`.
pub open spec fn sp_render_entry(m: MessageV) -> Seq<u8> {
    sp_role_label(m.role) + seq![0x3au8, 0x20u8] + m.content
}

/// The whole transcript rendered as entries joined by a blank line: the
/// prompt handed to the active provider each turn.
pub open spec fn sp_render_transcript(t: Seq<MessageV>) -> Seq<u8>
    decreases t.len(),
{
    if t.len() == 0 {
        Seq::empty()
    } else if t.len() == 1 {
        sp_render_entry(t[0])
    } else {
        sp_render_entry(t[0]) + seq![0x0au8, 0x0au8] + sp_render_transcript(t.drop_first())
    }
}

/// What the orchestrator decides at the top of a turn.
pub enum TurnStartV {
    /// Run the turn: hand this prompt to the active agent's provider.
    Run(Seq<u8>),
    /// Do not run it: the session is over for this reason.
    Stop(FinishReason),
}

pub enum TurnStart {
    Run(Vec<u8>),
    Stop(FinishReason),
}

/// Top of a turn: a pending stop ends the session as cancelled before any
/// provider is invoked; a spent turn budget ends it normally; otherwise the
/// turn runs with the whole transcript as its prompt.
pub open spec fn sp_begin_turn(m: SessionModel, cancel: bool) -> (SessionModel, TurnStartV) {
    if cancel {
        (
            SessionModel { phase: SessionPhase::Finished(FinishReason::Cancelled), ..m },
            TurnStartV::Stop(FinishReason::Cancelled),
        )
    } else if m.turns_done >= m.max_turns {
        (
            SessionModel { phase: SessionPhase::Finished(FinishReason::MaxTurnsReached), ..m },
            TurnStartV::Stop(FinishReason::MaxTurnsReached),
        )
    } else {
        (
            SessionModel { phase: SessionPhase::InTurn, ..m },
            TurnStartV::Run(sp_render_transcript(m.transcript)),
        )
    }
}

/// A turn that produced a response: append it under the active agent's role,
/// count the turn, and pass the floor to the other agent.
pub open spec fn sp_complete_turn(m: SessionModel, response: Seq<u8>) -> SessionModel {
    SessionModel {
        transcript: m.transcript.push(MessageV { role: Role::Agent(m.speaker), content: response }),
        turns_done: m.turns_done + 1,
        speaker: sp_other(m.speaker),
        phase: SessionPhase::Ready,
        ..m
    }
}

/// A turn whose provider call failed: the partial response is discarded, the
/// transcript is untouched, and the session ends in error.
pub open spec fn sp_fail_turn(m: SessionModel) -> SessionModel {
    SessionModel { phase: SessionPhase::Finished(FinishReason::Error), ..m }
}

// ---------------------------------------------------------------------------
// Laws.

/// Turn alternation: a well-formed session's transcript holds the two seed
/// entries and then exactly one agent entry per completed turn, strictly
/// alternating and starting with agent A.
pub proof fn lemma_turn_alternation(m: SessionModel)
    requires
        sp_session_wf(m),
    ensures
        m.transcript.len() == m.turns_done + 2,
        forall|i: int|
            0 <= i < m.turns_done ==> m.transcript[2 + i].role == Role::Agent(sp_turn_speaker(i)),
        forall|i: int|
            0 <= i < m.turns_done ==> ((#[trigger] m.transcript[2 + i].role == Role::Agent(
                Speaker::AgentA,
            )) <==> i % 2 == 0),
{
    assert forall|i: int| 0 <= i < m.turns_done implies ((#[trigger] m.transcript[2 + i].role
        == Role::Agent(Speaker::AgentA)) <==> i % 2 == 0) by {
        assert(m.transcript[2 + i].role == Role::Agent(sp_turn_speaker(i)));
    }
}

/// Cancellation boundary: a stop requested while a turn is in flight does
/// not touch that turn.  Completing the turn still appends its response to
/// the transcript; only the next turn start observes the stop, ends the
/// session as cancelled, and leaves the transcript as it was.
pub proof fn lemma_cancellation_boundary(m: SessionModel, response: Seq<u8>)
    requires
        sp_session_wf(m),
        m.phase is InTurn,
    ensures
        ({
            let m1 = sp_complete_turn(m, response);
            let r = sp_begin_turn(m1, true);
            &&& m1.transcript == m.transcript.push(
                MessageV { role: Role::Agent(m.speaker), content: response },
            )
            &&& m1.turns_done == m.turns_done + 1
            &&& r.0.phase == SessionPhase::Finished(FinishReason::Cancelled)
            &&& r.1 == TurnStartV::Stop(FinishReason::Cancelled)
            &&& r.0.transcript == m1.transcript
        }),
{
}

/// The session after running a sequence of successful turns, none of them
/// interrupted.
pub open spec fn sp_run_turns(m: SessionModel, responses: Seq<Seq<u8>>) -> SessionModel
    decreases responses.len(),
{
    if responses.len() == 0 {
        m
    } else {
        sp_run_turns(sp_complete_turn(sp_begin_turn(m, false).0, responses[0]),
            responses.drop_first())
    }
}

/// Max-turns termination: with no cancellation and no errors, a session
/// performs exactly its turn budget of turns, appending each response in
/// order, and the next turn start reports that the budget is spent.
pub proof fn lemma_max_turns(m: SessionModel, responses: Seq<Seq<u8>>)
    requires
        sp_session_wf(m),
        m.phase is Ready,
        responses.len() == m.max_turns - m.turns_done,
    ensures
        ({
            let fin = sp_run_turns(m, responses);
            &&& sp_session_wf(fin)
            &&& fin.turns_done == fin.max_turns == m.max_turns
            &&& fin.transcript.len() == m.transcript.len() + responses.len()
            &&& (forall|i: int|
                0 <= i < m.transcript.len() ==> fin.transcript[i] == #[trigger] m.transcript[i])
            &&& (forall|i: int|
                0 <= i < responses.len() ==> fin.transcript[m.transcript.len() + i].content
                    == #[trigger] responses[i])
            &&& sp_begin_turn(fin, false).0.phase == SessionPhase::Finished(
                FinishReason::MaxTurnsReached,
            )
            &&& sp_begin_turn(fin, false).1 == TurnStartV::Stop(FinishReason::MaxTurnsReached)
        }),
    decreases responses.len(),
{
    if responses.len() == 0 {
    } else {
        let m1 = sp_begin_turn(m, false).0;
        let m2 = sp_complete_turn(m1, responses[0]);
        assert(sp_session_wf(m2));
        lemma_max_turns(m2, responses.drop_first());
        let fin = sp_run_turns(m, responses);
        assert(fin == sp_run_turns(m2, responses.drop_first()));
        assert forall|i: int| 0 <= i < m.transcript.len() implies fin.transcript[i]
            == #[trigger] m.transcript[i] by {
            assert(m2.transcript[i] == m.transcript[i]);
            assert(fin.transcript[i] == m2.transcript[i]);
        }
        assert(fin.transcript[m.transcript.len() as int] == m2.transcript[m.transcript.len() as int]);
        assert(fin.transcript[m.transcript.len() as int].content == responses[0]);
        assert forall|i: int|
            0 <= i < responses.len() implies fin.transcript[m.transcript.len() + i].content
            == #[trigger] responses[i] by {
            if i >= 1 {
                assert(responses.drop_first()[i - 1] == responses[i]);
                assert(fin.transcript[m2.transcript.len() + (i - 1)].content
                    == responses.drop_first()[i - 1]);
            }
        }
    }
}

// ---------------------------------------------------------------------------
// The executable orchestrator.

/// One conversation session between two agents, driving a bounded
/// turn-taking loop over a shared transcript.
pub struct Session {
    transcript: Vec<Message>,
    max_turns: u32,
    turns_done: u32,
    speaker: Speaker,
    phase: SessionPhase,
}

impl View for Session {
    type V = SessionModel;

    closed spec fn view(&self) -> SessionModel {
        SessionModel {
            transcript: messages_view(self.transcript),
            max_turns: self.max_turns as int,
            turns_done: self.turns_done as int,
            speaker: self.speaker,
            phase: self.phase,
        }
    }
}

fn role_label_vec(r: Role) -> (v: Vec<u8>)
    ensures
        v@ == sp_role_label(r),
{
    let mut v: Vec<u8> = Vec::new();
    match r {
        Role::System => {
            v.push(0x73);
            v.push(0x79);
            v.push(0x73);
            v.push(0x74);
            v.push(0x65);
            v.push(0x6d);
        },
        Role::User => {
            v.push(0x75);
            v.push(0x73);
            v.push(0x65);
            v.push(0x72);
        },
        Role::Agent(Speaker::AgentA) => {
            v.push(0x4c);
            v.push(0x4c);
            v.push(0x4d);
            v.push(0x5f);
            v.push(0x31);
        },
        Role::Agent(Speaker::AgentB) => {
            v.push(0x4c);
            v.push(0x4c);
            v.push(0x4d);
            v.push(0x5f);
            v.push(0x32);
        },
    }
    proof {
        assert(v@ =~= sp_role_label(r));
    }
    v
}

/// Render one entry as `label: content`.
fn render_entry(m: &Message) -> (v: Vec<u8>)
    ensures
        v@ == sp_render_entry(m@),
{
    let mut v = role_label_vec(m.role);
    let ghost l = v@;
    v.push(0x3a);
    v.push(0x20);
    v.extend_from_slice(m.content.as_slice());
    proof {
        assert(v@ =~= sp_render_entry(m@));
    }
    v
}

impl Session {
    /// Start a session: the transcript is seeded with the first agent's
    /// persona and the topic; agent A will speak first.
    pub fn new(persona_a: Vec<u8>, topic: Vec<u8>, max_turns: u32) -> (r: Session)
        ensures
            r@ == sp_new_session(persona_a@, topic@, max_turns),
            sp_session_wf(r@),
    {
        let mut transcript: Vec<Message> = Vec::new();
        transcript.push(Message { role: Role::System, content: persona_a });
        transcript.push(Message { role: Role::User, content: topic });
        let r = Session {
            transcript,
            max_turns,
            turns_done: 0,
            speaker: Speaker::AgentA,
            phase: SessionPhase::Ready,
        };
        proof {
            assert(r@.transcript =~= sp_new_session(persona_a@, topic@, max_turns).transcript);
        }
        r
    }

    pub fn phase(&self) -> (r: SessionPhase)
        ensures
            r == self@.phase,
    {
        self.phase
    }

    pub fn turns_done(&self) -> (r: u32)
        ensures
            r as int == self@.turns_done,
    {
        self.turns_done
    }

    pub fn max_turns(&self) -> (r: u32)
        ensures
            r as int == self@.max_turns,
    {
        self.max_turns
    }

    /// Whose turn the next `begin_turn` would run.
    pub fn current_speaker(&self) -> (r: Speaker)
        ensures
            r == self@.speaker,
    {
        self.speaker
    }

    /// Read-only access to the transcript.
    pub fn transcript(&self) -> (r: &Vec<Message>)
        ensures
            messages_view(*r) == self@.transcript,
    {
        &self.transcript
    }

    /// The prompt for the coming turn: the whole transcript, rendered.
    pub fn render_prompt(&self) -> (r: Vec<u8>)
        ensures
            r@ == sp_render_transcript(self@.transcript),
    {
        let ghost full = messages_view(self.transcript);
        let n = self.transcript.len();
        let mut acc: Vec<u8> = Vec::new();
        let mut i: usize = 0;
        proof {
            assert(full.skip(0) =~= full);
            assert(acc@ + sp_render_transcript(full) =~= sp_render_transcript(full));
        }
        while i < n
            invariant
                0 <= i <= n == self.transcript@.len(),
                full == messages_view(self.transcript),
                sp_render_transcript(full) == acc@ + sp_render_transcript(full.skip(i as int)),
            decreases n - i,
        {
            proof {
                assert(full.skip(i as int)[0] == full[i as int]);
                assert(full.skip(i as int).drop_first() =~= full.skip(i as int + 1));
            }
            let ghost acc0 = acc@;
            let ghost restv = sp_render_transcript(full.skip(i as int + 1));
            let e = render_entry(&self.transcript[i]);
            acc.extend_from_slice(e.as_slice());
            if i + 1 < n {
                acc.push(0x0a);
                acc.push(0x0a);
                proof {
                    assert(acc@ =~= acc0 + (sp_render_entry(full[i as int]) + seq![
                        0x0au8,
                        0x0au8,
                    ]));
                    assert(acc0 + (sp_render_entry(full[i as int]) + seq![0x0au8, 0x0au8] + restv)
                        =~= (acc0 + (sp_render_entry(full[i as int]) + seq![0x0au8, 0x0au8]))
                        + restv);
                }
            } else {
                proof {
                    assert(full.skip(i as int).len() == 1);
                    assert(acc@ =~= acc0 + sp_render_entry(full[i as int]));
                    assert(full.skip(n as int) =~= Seq::<MessageV>::empty());
                    assert(acc@ + Seq::<u8>::empty() =~= acc@);
                }
            }
            i += 1;
        }
        proof {
            assert(full.skip(n as int) =~= Seq::<MessageV>::empty());
            assert(acc@ + Seq::<u8>::empty() =~= acc@);
        }
        acc
    }

    /// Top of a turn: observe (and clear) the stop flag; decide whether the
    /// turn runs, and with which prompt.
    pub fn begin_turn(&mut self, cancel: &mut CancelFlag) -> (r: TurnStart)
        requires
            sp_session_wf(old(self)@),
            old(self)@.phase is Ready,
        ensures
            sp_session_wf(final(self)@),
            final(self)@ == sp_begin_turn(old(self)@, old(cancel)@).0,
            final(cancel)@ == false,
            match r {
                TurnStart::Run(p) => sp_begin_turn(old(self)@, old(cancel)@).1 == TurnStartV::Run(
                    p@,
                ),
                TurnStart::Stop(why) => sp_begin_turn(old(self)@, old(cancel)@).1
                    == TurnStartV::Stop(why),
            },
    {
        if is_stop_requested(cancel) {
            reset_stop_flag(cancel);
            self.phase = SessionPhase::Finished(FinishReason::Cancelled);
            TurnStart::Stop(FinishReason::Cancelled)
        } else if self.turns_done >= self.max_turns {
            self.phase = SessionPhase::Finished(FinishReason::MaxTurnsReached);
            TurnStart::Stop(FinishReason::MaxTurnsReached)
        } else {
            self.phase = SessionPhase::InTurn;
            TurnStart::Run(self.render_prompt())
        }
    }

    /// A turn that produced a response: append it and pass the floor.
    pub fn complete_turn(&mut self, response: Vec<u8>)
        requires
            sp_session_wf(old(self)@),
            old(self)@.phase is InTurn,
        ensures
            final(self)@ == sp_complete_turn(old(self)@, response@),
            sp_session_wf(final(self)@),
    {
        let ghost rv = response@;
        self.transcript.push(Message { role: Role::Agent(self.speaker), content: response });
        self.turns_done = self.turns_done + 1;
        self.speaker = match self.speaker {
            Speaker::AgentA => Speaker::AgentB,
            Speaker::AgentB => Speaker::AgentA,
        };
        self.phase = SessionPhase::Ready;
        proof {
            assert(self@.transcript =~= sp_complete_turn(old(self)@, rv).transcript);
        }
    }

    /// A turn whose provider call failed: the transcript is untouched and
    /// the session ends in error.
    pub fn fail_turn(&mut self)
        requires
            sp_session_wf(old(self)@),
            old(self)@.phase is InTurn,
        ensures
            final(self)@ == sp_fail_turn(old(self)@),
            sp_session_wf(final(self)@),
    {
        self.phase = SessionPhase::Finished(FinishReason::Error);
    }
}

} // verus!

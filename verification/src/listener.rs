//! The dispatch path: one connection at a time, from its bytes to the end of
//! the deployment it sets off.

use crate::registry::{
    at_rest, handle_target, handled, is_configured, reacted, EntryView, Repos,
};
use crate::repository::{is_deploying, Action, ActionView, Fault, Input, Outcome};
use crate::webhook::{
    ref_pattern, regex_compiles, request_body, request_body_of, target_of, webhook_target, Webhook,
    WebhookError,
};
use vstd::prelude::*;

verus! {

/// The loopback address on which webhooks are taken.
pub const LISTEN_ADDRESS: &'static str = "127.0.0.1:6000";

/// The loopback host on which the static-file servers are bound.
pub const SERVE_HOST: &'static str = "127.0.0.1";

/// What the listener is busy with.
#[derive(Clone, Copy, Debug, PartialEq, Eq, Structural)]
pub enum Phase {
    /// Nothing: the next connection can be taken.
    Accepting,
    /// The body of a request is with the decoder.
    Decoding,
    /// The target at this place of the registry is being deployed.
    Deploying(usize),
}

/// How the handling of a connection ended.
#[derive(Clone, Copy, Debug, PartialEq, Eq, Structural)]
pub enum Verdict {
    /// The bytes end before the head of the request does.
    Incomplete,
    /// The bytes are no head of a request.
    MalformedRequest,
    /// The body is not the structure a webhook has.
    MalformedBody,
    /// The pattern for references was not accepted.
    BadPattern,
    /// The reference names no branch.
    NoBranch,
    /// The webhook names a target that is not configured.
    Unmatched,
    /// The target is configured, but not at rest and ready.
    NotIdle,
    /// The target was deployed.
    Deployed,
    /// The deployment was given up.
    Aborted(Fault),
}

/// What the caller is to do next.
#[derive(Debug, PartialEq, Eq)]
pub enum Step {
    /// The connection is dealt with: take the next one.
    Accept(Verdict),
    /// Decode this body and bring back the webhook it holds.
    Decode(String),
    /// Carry out this action and report its outcome.
    Perform(Action),
    /// The call came out of turn; nothing has changed.
    Busy,
}

/// Mathematical model of [`Step`].
pub enum StepView {
    Accept(Verdict),
    Decode(Seq<char>),
    Perform(ActionView),
    Busy,
}

impl View for Step {
    type V = StepView;

    open spec fn view(&self) -> StepView {
        match *self {
            Step::Accept(verdict) => StepView::Accept(verdict),
            Step::Decode(body) => StepView::Decode(body@),
            Step::Perform(action) => StepView::Perform(action@),
            Step::Busy => StepView::Busy,
        }
    }
}

/// Mathematical model of [`Listener`].
pub struct ListenerView {
    pub repos: Seq<EntryView>,
    pub phase: Phase,
}

/// The step that an action of a deployment asks for, and the phase the
/// listener is in after it: work is carried out, anything else ends the
/// handling of the connection.
pub open spec fn step_for(index: usize, action: ActionView) -> (Phase, StepView) {
    match action {
        ActionView::Done => (Phase::Accepting, StepView::Accept(Verdict::Deployed)),
        ActionView::Abort(fault) => (Phase::Accepting, StepView::Accept(Verdict::Aborted(fault))),
        ActionView::Nothing => (Phase::Accepting, StepView::Accept(Verdict::NotIdle)),
        _ => (Phase::Deploying(index), StepView::Perform(action)),
    }
}

impl ListenerView {
    /// The listener in another phase.
    pub open spec fn during(self, phase: Phase) -> ListenerView {
        ListenerView { phase, ..self }
    }

    /// The bytes of a connection arrive. Only a complete, well-formed head
    /// leads on, to the decoding of the body; the registry is not touched.
    pub open spec fn receive(self, bytes: Seq<u8>) -> (ListenerView, StepView) {
        if self.phase == Phase::Accepting {
            match request_body_of(bytes) {
                Ok(Some(body)) => (self.during(Phase::Decoding), StepView::Decode(body)),
                Ok(None) => (self, StepView::Accept(Verdict::Incomplete)),
                Err(_) => (self, StepView::Accept(Verdict::MalformedRequest)),
            }
        } else {
            (self, StepView::Busy)
        }
    }

    /// The decoder is back. A body that is no webhook, a reference that
    /// names no branch and a target that is not configured all end the
    /// handling with the registry as it was; so does a webhook for a
    /// configured target where the directory the agent runs in is not
    /// known. Any other webhook for a configured target starts the
    /// deployment of that target.
    pub open spec fn decoded(
        self,
        webhook: Option<(Seq<char>, Seq<char>)>,
        current_dir: Option<Seq<char>>,
    ) -> (ListenerView, StepView) {
        if self.phase == Phase::Decoding {
            let idle = self.during(Phase::Accepting);
            match webhook {
                None => (idle, StepView::Accept(Verdict::MalformedBody)),
                Some((repository_name, gitref)) => match target_of(repository_name, gitref) {
                    None => if regex_compiles(ref_pattern()) {
                        (idle, StepView::Accept(Verdict::NoBranch))
                    } else {
                        (idle, StepView::Accept(Verdict::BadPattern))
                    },
                    Some(target) => if !is_configured(self.repos, target) {
                        (idle, StepView::Accept(Verdict::Unmatched))
                    } else {
                        match current_dir {
                            None => (
                                idle,
                                StepView::Accept(Verdict::Aborted(Fault::NoWorkingDirectory)),
                            ),
                            Some(dir) => {
                                let (repos, started) = handled(self.repos, target, dir);
                                let (index, action) = started->0;
                                (
                                    ListenerView {
                                        repos,
                                        phase: step_for(index as usize, action).0,
                                    },
                                    step_for(index as usize, action).1,
                                )
                            },
                        }
                    },
                },
            }
        } else {
            (self, StepView::Busy)
        }
    }

    /// The outcome of the last action is reported, and the deployment goes
    /// on or ends.
    pub open spec fn report(self, outcome: Outcome) -> (ListenerView, StepView) {
        match self.phase {
            Phase::Deploying(index) => {
                let (repos, action) = reacted(self.repos, index as int, Input::Report(outcome));
                (
                    ListenerView { repos, phase: step_for(index, action).0 },
                    step_for(index, action).1,
                )
            },
            _ => (self, StepView::Busy),
        }
    }

    /// Whether no deployment is under way but the one the listener is
    /// busy with.
    pub open spec fn single_flight(self) -> bool {
        forall|j: int|
            0 <= j < self.repos.len() && is_deploying((#[trigger] self.repos[j]).repository)
                ==> self.phase == Phase::Deploying(j as usize)
    }
}

/// Whether `webhook` is a webhook whose reference names a branch and whose
/// target is configured.
pub open spec fn names_configured_target(
    repos: Seq<EntryView>,
    webhook: Option<(Seq<char>, Seq<char>)>,
) -> bool {
    webhook matches Some(fields) && target_of(fields.0, fields.1) matches Some(target)
        && is_configured(repos, target)
}

/// The directory the agent runs in, as text, where it is known.
pub open spec fn dir_of(current_dir: Option<&str>) -> Option<Seq<char>> {
    match current_dir {
        Some(dir) => Some(dir@),
        None => None,
    }
}

/// What a decoded webhook holds, as far as the dispatch reads it: the name
/// of the repository and the reference.
pub open spec fn fields_of(webhook: Option<Webhook>) -> Option<(Seq<char>, Seq<char>)> {
    match webhook {
        Some(webhook) => Some((webhook.repository.name@, webhook.git_ref@)),
        None => None,
    }
}

/// The listener: the registry, and what is being done for the connection
/// that was accepted last.
pub struct Listener {
    repos: Repos,
    phase: Phase,
}

impl View for Listener {
    type V = ListenerView;

    closed spec fn view(&self) -> ListenerView {
        ListenerView { repos: self.repos@, phase: self.phase }
    }
}

impl Listener {
    /// A listener for the targets of `repos`, ready for its first
    /// connection.
    pub fn new(repos: Repos) -> (listener: Listener)
        ensures
            listener@ == (ListenerView { repos: repos@, phase: Phase::Accepting }),
            at_rest(repos@) ==> listener@.single_flight(),
    {
        Listener { repos, phase: Phase::Accepting }
    }

    /// The registry.
    pub fn repos(&self) -> (repos: &Repos)
        ensures
            repos@ == self@.repos,
    {
        &self.repos
    }

    /// What the listener is busy with.
    pub fn phase(&self) -> (phase: Phase)
        ensures
            phase == self@.phase,
    {
        self.phase
    }

    /// Turns an action of the deployment at `index` into the next step.
    fn step(&mut self, index: usize, action: Action) -> (step: Step)
        ensures
            final(self)@ == old(self)@.during(step_for(index, action@).0),
            step@ == step_for(index, action@).1,
    {
        match action {
            Action::Done => {
                self.phase = Phase::Accepting;
                Step::Accept(Verdict::Deployed)
            },
            Action::Abort(fault) => {
                self.phase = Phase::Accepting;
                Step::Accept(Verdict::Aborted(fault))
            },
            Action::Nothing => {
                self.phase = Phase::Accepting;
                Step::Accept(Verdict::NotIdle)
            },
            work => {
                self.phase = Phase::Deploying(index);
                Step::Perform(work)
            },
        }
    }

    /// Takes the bytes that were read from a connection. Input that is
    /// malformed or incomplete is dropped: the registry stays as it is and
    /// the next connection can be taken.
    pub fn receive(&mut self, bytes: &[u8]) -> (step: Step)
        ensures
            final(self)@ == old(self)@.receive(bytes@).0,
            step@ == old(self)@.receive(bytes@).1,
            final(self)@.repos == old(self)@.repos,
            old(self)@.phase == Phase::Accepting && !(request_body_of(bytes@) matches Ok(Some(_)))
                ==> final(self)@ == old(self)@ && step@ is Accept,
            old(self)@.single_flight() ==> final(self)@.single_flight(),
    {
        match self.phase {
            Phase::Accepting => match request_body(bytes) {
                Ok(Some(body)) => {
                    self.phase = Phase::Decoding;
                    Step::Decode(body)
                },
                Ok(None) => Step::Accept(Verdict::Incomplete),
                Err(_) => Step::Accept(Verdict::MalformedRequest),
            },
            _ => Step::Busy,
        }
    }

    /// Takes what the decoder made of the body, none where the body is no
    /// webhook, and dispatches it. `current_dir` is the directory the agent
    /// runs in, none where it cannot be told.
    pub fn decoded(&mut self, webhook: Option<Webhook>, current_dir: Option<&str>) -> (step: Step)
        ensures
            final(self)@ == old(self)@.decoded(fields_of(webhook), dir_of(current_dir)).0,
            step@ == old(self)@.decoded(fields_of(webhook), dir_of(current_dir)).1,
            !names_configured_target(old(self)@.repos, fields_of(webhook)) || current_dir is None
                ==> final(self)@.repos == old(self)@.repos && !(step@ is Perform),
            old(self)@.single_flight() ==> final(self)@.single_flight(),
    {
        // The registry fits in memory, so each of its places is a `usize`.
        let _places = self.repos.len();
        proof {
            if self@.single_flight() {
                lemma_one_deployment_at_a_time(
                    self@,
                    Seq::empty(),
                    fields_of(webhook),
                    dir_of(current_dir),
                    Outcome { success: true, process: None },
                );
            }
        }
        match self.phase {
            Phase::Decoding => {
                self.phase = Phase::Accepting;
                match webhook {
                    None => Step::Accept(Verdict::MalformedBody),
                    Some(webhook) => match webhook_target(webhook) {
                        Err(WebhookError::Pattern) => Step::Accept(Verdict::BadPattern),
                        Err(_) => Step::Accept(Verdict::NoBranch),
                        Ok(target) => match current_dir {
                            Some(dir) => match handle_target(target, &mut self.repos, dir) {
                                None => Step::Accept(Verdict::Unmatched),
                                Some((index, action)) => self.step(index, action),
                            },
                            None => match self.repos.position(&target) {
                                None => Step::Accept(Verdict::Unmatched),
                                Some(_) => Step::Accept(
                                    Verdict::Aborted(Fault::NoWorkingDirectory),
                                ),
                            },
                        },
                    },
                }
            },
            _ => Step::Busy,
        }
    }

    /// Takes the outcome of the action that was handed out last.
    pub fn report(&mut self, outcome: Outcome) -> (step: Step)
        ensures
            final(self)@ == old(self)@.report(outcome).0,
            step@ == old(self)@.report(outcome).1,
            old(self)@.single_flight() ==> final(self)@.single_flight(),
    {
        // The registry fits in memory, so each of its places is a `usize`.
        let _places = self.repos.len();
        proof {
            if self@.single_flight() {
                lemma_one_deployment_at_a_time(self@, Seq::empty(), None, None, outcome);
            }
        }
        match self.phase {
            Phase::Deploying(index) => {
                let action = self.repos.advance(index, outcome);
                self.step(index, action)
            },
            _ => Step::Busy,
        }
    }
}

/// Input that is malformed or incomplete is dropped. Bytes without a
/// complete, well-formed head leave the listener exactly as it was, ready for
/// the next connection; so does a body that is no webhook, but for the phase,
/// which is ready for the next connection again.
pub proof fn lemma_unusable_input_is_dropped(
    listener: ListenerView,
    bytes: Seq<u8>,
    current_dir: Option<Seq<char>>,
)
    ensures
        listener.phase == Phase::Accepting && !(request_body_of(bytes) matches Ok(Some(_)))
            ==> listener.receive(bytes).0 == listener && listener.receive(bytes).1 is Accept,
        listener.receive(bytes).0.repos == listener.repos,
        listener.phase == Phase::Decoding ==> listener.decoded(None, current_dir).0
            == listener.during(Phase::Accepting) && listener.decoded(None, current_dir).1
            == StepView::Accept(Verdict::MalformedBody),
{
}

/// A webhook for a pair of names that is not configured changes no
/// repository, and neither does one whose reference names no branch, nor
/// any webhook while the directory the agent runs in is not known. Two
/// targets are the same only if both of their names are.
pub proof fn lemma_unmatched_webhook_changes_nothing(
    listener: ListenerView,
    webhook: Option<(Seq<char>, Seq<char>)>,
    current_dir: Option<Seq<char>>,
)
    requires
        !names_configured_target(listener.repos, webhook) || current_dir is None,
    ensures
        listener.decoded(webhook, current_dir).0.repos == listener.repos,
        listener.decoded(webhook, current_dir).0.phase != listener.phase
            ==> listener.decoded(webhook, current_dir).0.phase == Phase::Accepting,
        !(listener.decoded(webhook, current_dir).1 is Perform),
{
}

/// Where no deployment is under way but the one
/// the listener is busy with, that stays so whatever is brought to the
/// listener; and while it is busy, bytes of a further connection are not
/// taken.
pub proof fn lemma_one_deployment_at_a_time(
    listener: ListenerView,
    bytes: Seq<u8>,
    webhook: Option<(Seq<char>, Seq<char>)>,
    current_dir: Option<Seq<char>>,
    outcome: Outcome,
)
    requires
        listener.single_flight(),
        listener.repos.len() <= usize::MAX,
    ensures
        listener.receive(bytes).0.single_flight(),
        listener.decoded(webhook, current_dir).0.single_flight(),
        listener.report(outcome).0.single_flight(),
        listener.phase != Phase::Accepting ==> listener.receive(bytes) == (
            listener,
            StepView::Busy,
        ),
{
    let after = listener.decoded(webhook, current_dir).0;
    assert(after.single_flight()) by {
        if listener.phase == Phase::Decoding && names_configured_target(listener.repos, webhook)
            && current_dir is Some {
            let fields = webhook->0;
            let target = target_of(fields.0, fields.1)->0;
            let started = handled(listener.repos, target, current_dir->0).1->0;
            let index = started.0;
            assert(!is_deploying(listener.repos[index].repository));
            assert forall|j: int|
                0 <= j < after.repos.len() && is_deploying(
                    (#[trigger] after.repos[j]).repository,
                ) implies after.phase == Phase::Deploying(j as usize) by {
                if j != index {
                    assert(after.repos[j] == listener.repos[j]);
                }
            }
        }
    }
    let reported = listener.report(outcome).0;
    assert(reported.single_flight()) by {
        if let Phase::Deploying(index) = listener.phase {
            assert forall|j: int|
                0 <= j < reported.repos.len() && is_deploying(
                    (#[trigger] reported.repos[j]).repository,
                ) implies reported.phase == Phase::Deploying(j as usize) by {
                if j != index {
                    assert(reported.repos[j] == listener.repos[j]);
                    assert(listener.phase == Phase::Deploying(j as usize));
                }
            }
        }
    }
}

/// Whether `after` holds the targets of `before`, each in its place and
/// with the recipe it had.
pub open spec fn same_configuration(before: Seq<EntryView>, after: Seq<EntryView>) -> bool {
    &&& after.len() == before.len()
    &&& forall|j: int|
        0 <= j < before.len() ==> (#[trigger] after[j]).target == before[j].target
            && after[j].repository.recipe == before[j].repository.recipe
}

/// The registry is fixed once it is set up. Whatever is brought to the
/// listener, no target is added, removed or moved, and every target keeps
/// its recipe, and with it its mode.
pub proof fn lemma_configuration_is_fixed(
    listener: ListenerView,
    bytes: Seq<u8>,
    webhook: Option<(Seq<char>, Seq<char>)>,
    current_dir: Option<Seq<char>>,
    outcome: Outcome,
)
    ensures
        same_configuration(listener.repos, listener.receive(bytes).0.repos),
        same_configuration(listener.repos, listener.decoded(webhook, current_dir).0.repos),
        same_configuration(listener.repos, listener.report(outcome).0.repos),
{
}

} // verus!

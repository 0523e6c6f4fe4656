//! The server's answer to flight 5.

use vstd::prelude::*;

use crate::alert::{fatal, fatal_alert, AlertDescription};
use crate::bytes::{copy, equal};
use crate::config::HandshakeConfig;
use crate::error::Error;
use crate::flight::flight5::{
    pull_server_finished, pull_transcript, server_finished_rules, transcript_rules, Flight5,
};
use crate::flight::{
    fail, fatal_failure, messages_view, Action, ActionView, Event, EventView, Failure,
    PulledMessage, PulledMessageView, Step, StepView,
};
use crate::handshake::{HandshakeMessage, HandshakeMessageView, HandshakeType};
use crate::prf::{prf_verify_data_server, server_verify_data};
use crate::state::{State, StateView};

verus! {

/// How far the answer has been taken.
#[derive(Debug, PartialEq, Eq)]
pub enum ParseProgress {
    /// The server's Finished is being looked up.
    Finished,
    /// The messages that the Finished vouches for are being looked up.
    Transcript { verify_data: Vec<u8> },
}

/// How far the answer has been taken, as plain values.
#[verifier::ext_equal]
pub enum ParseProgressView {
    Finished,
    Transcript { verify_data: Seq<u8> },
}

impl View for ParseProgress {
    type V = ParseProgressView;

    open spec fn view(&self) -> ParseProgressView {
        match self {
            ParseProgress::Finished => ParseProgressView::Finished,
            ParseProgress::Transcript { verify_data } => ParseProgressView::Transcript {
                verify_data: verify_data@,
            },
        }
    }
}

impl View for Step<ParseProgress, Flight5> {
    type V = StepView<ParseProgressView, Flight5>;

    open spec fn view(&self) -> StepView<ParseProgressView, Flight5> {
        match *self {
            Step::Ask(progress, action) => StepView::Ask(progress@, action@),
            Step::Done(flight) => StepView::Done(flight),
            Step::Fail(failure) => StepView::Fail(failure),
        }
    }
}

impl ParseProgressView {
    /// Tells whether the next step takes `event`.
    pub open spec fn awaits(self, event: EventView) -> bool {
        match self {
            ParseProgressView::Finished => event is Messages,
            ParseProgressView::Transcript { .. } => event is Merged,
        }
    }
}

/// The first message that was looked up as one of the kind `typ`.
pub open spec fn message_of_type(messages: Seq<PulledMessageView>, typ: HandshakeType) -> Option<
    HandshakeMessageView,
>
    decreases messages.len(),
{
    if messages.len() == 0 {
        None
    } else if messages[0].typ == typ {
        Some(messages[0].message)
    } else {
        message_of_type(messages.drop_first(), typ)
    }
}

/// The first step: the server's Finished is asked for.
pub open spec fn parse_begin(cfg: HandshakeConfig) -> StepView<ParseProgressView, Flight5> {
    StepView::Ask(
        ParseProgressView::Finished,
        ActionView::FullPullMap {
            start_sequence: 0,
            rules: server_finished_rules(cfg.initial_epoch),
        },
    )
}

/// The second step.  The verify data of the Finished are kept, and the
/// messages they vouch for asked for.
pub open spec fn parse_finished(
    messages: Result<Seq<PulledMessageView>, Error>,
    cfg: HandshakeConfig,
) -> StepView<ParseProgressView, Flight5> {
    match messages {
        Err(_) => StepView::Fail((None, None)),
        Ok(messages) => match message_of_type(messages, HandshakeType::Finished) {
            Some(HandshakeMessageView::Finished { verify_data }) => StepView::Ask(
                ParseProgressView::Transcript { verify_data },
                ActionView::PullAndMerge { rules: transcript_rules(cfg.initial_epoch) },
            ),
            _ => StepView::Fail((Some(fatal_alert(AlertDescription::InternalError)), None)),
        },
    }
}

/// Tells whether verify data vouch for `plain_text`: they do where they are
/// those that the master secret gives, or where there is no cipher suite.
pub open spec fn vouches_for(
    verify_data: Seq<u8>,
    plain_text: Seq<u8>,
    state: StateView,
) -> bool {
    match state.cipher_suite {
        Some(suite) => verify_data == server_verify_data(
            state.master_secret,
            plain_text,
            suite.spec_hash_func(),
        ),
        None => true,
    }
}

/// The last step: the verify data have to vouch for the messages.
pub open spec fn parse_transcript(
    verify_data: Seq<u8>,
    plain_text: Seq<u8>,
    state: StateView,
) -> StepView<ParseProgressView, Flight5> {
    if vouches_for(verify_data, plain_text, state) {
        StepView::Done(Flight5)
    } else {
        StepView::Fail(
            fatal_failure(AlertDescription::HandshakeFailure, Error::VerifyDataMismatch),
        )
    }
}

/// The step that an awaited event leads to.
pub open spec fn parse_resume(
    progress: ParseProgressView,
    event: EventView,
    state: StateView,
    cfg: HandshakeConfig,
) -> StepView<ParseProgressView, Flight5>
    recommends
        progress.awaits(event),
{
    match (progress, event) {
        (ParseProgressView::Finished, EventView::Messages(messages)) => parse_finished(
            messages,
            cfg,
        ),
        (
            ParseProgressView::Transcript { verify_data },
            EventView::Merged(plain_text),
        ) => parse_transcript(verify_data, plain_text, state),
        _ => arbitrary(),
    }
}

/// Finds the first message that was looked up as one of the kind `typ`.
fn find_message(messages: &Vec<PulledMessage>, typ: HandshakeType) -> (r: Option<&HandshakeMessage>)
    ensures
        match message_of_type(messages_view(messages@), typ) {
            Some(message) => r is Some && r->0@ == message,
            None => r is None,
        },
{
    let ghost all = messages_view(messages@);
    let mut i: usize = 0;
    assert(all.skip(0) =~= all);
    while i < messages.len()
        invariant
            i <= messages@.len(),
            all == messages_view(messages@),
            message_of_type(all, typ) == message_of_type(all.skip(i as int), typ),
        decreases messages@.len() - i,
    {
        assert(all.skip(i as int)[0] == messages@[i as int]@);
        assert(all.skip(i as int).drop_first() =~= all.skip(i + 1));
        if messages[i].typ == typ {
            return Some(&messages[i].message);
        }
        i += 1;
    }
    assert(all.skip(i as int).len() == 0);
    None
}

/// Compares the verify data of the server with those that were derived, or
/// reports that they could not be.
pub fn check_verify_data(expected: Result<Vec<u8>, Error>, verify_data: &[u8]) -> (r: Result<
    (),
    Failure,
>)
    ensures
        match expected {
            Err(err) => r == Err::<(), Failure>(
                fatal_failure(AlertDescription::InsufficientSecurity, err),
            ),
            Ok(expected) => if expected@ == verify_data@ {
                r == Ok::<(), Failure>(())
            } else {
                r == Err::<(), Failure>(
                    fatal_failure(AlertDescription::HandshakeFailure, Error::VerifyDataMismatch),
                )
            },
        },
{
    match expected {
        Err(err) => Err(fail(AlertDescription::InsufficientSecurity, err)),
        Ok(expected) => if equal(expected.as_slice(), verify_data) {
            Ok(())
        } else {
            Err(fail(AlertDescription::HandshakeFailure, Error::VerifyDataMismatch))
        },
    }
}

impl Flight5 {
    /// Starts on the server's answer.  There has to be an epoch after the
    /// initial one.
    pub fn parse(&self, cfg: &HandshakeConfig) -> (r: Step<ParseProgress, Flight5>)
        requires
            cfg.initial_epoch < u16::MAX,
        ensures
            r@ == parse_begin(*cfg),
            r is Ask ==> forall|answer: EventView| #[trigger]
                answer.answers(r->Ask_1@) <==> r->Ask_0@.awaits(answer),
    {
        Step::Ask(
            ParseProgress::Finished,
            Action::FullPullMap {
                start_sequence: 0,
                rules: pull_server_finished(cfg.initial_epoch),
            },
        )
    }

    /// Goes on with the server's answer.
    pub fn resume_parse(
        &self,
        progress: ParseProgress,
        event: Event,
        state: &State,
        cfg: &HandshakeConfig,
    ) -> (r: Step<ParseProgress, Flight5>)
        requires
            progress@.awaits(event@),
            cfg.initial_epoch < u16::MAX,
        ensures
            r@ == parse_resume(progress@, event@, state@, *cfg),
            r is Ask ==> forall|answer: EventView| #[trigger]
                answer.answers(r->Ask_1@) <==> r->Ask_0@.awaits(answer),
    {
        match (progress, event) {
            (ParseProgress::Finished, Event::Messages(Ok(messages))) => {
                match find_message(&messages, HandshakeType::Finished) {
                    Some(HandshakeMessage::Finished(finished)) => Step::Ask(
                        ParseProgress::Transcript {
                            verify_data: copy(finished.verify_data.as_slice()),
                        },
                        Action::PullAndMerge { rules: pull_transcript(cfg.initial_epoch) },
                    ),
                    _ => Step::Fail((Some(fatal(AlertDescription::InternalError)), None)),
                }
            },
            (ParseProgress::Transcript { verify_data }, Event::Merged(plain_text)) => {
                if let Some(suite) = &state.cipher_suite {
                    let expected: Result<Vec<u8>, Error> = prf_verify_data_server(
                        state.master_secret.as_slice(),
                        plain_text.as_slice(),
                        suite.hash_func(),
                    );
                    if let Err(failure) = check_verify_data(expected, verify_data.as_slice()) {
                        return Step::Fail(failure);
                    }
                }
                Step::Done(Flight5)
            },
            // The lookup failed: the Finished has not come yet.
            _ => Step::Fail((None, None)),
        }
    }
}

/// A step on the server's answer is known by what it asks for or ends in.
pub proof fn law_parse_step_view(step: Step<ParseProgress, Flight5>)
    ensures
        match step {
            Step::Ask(progress, action) => {
                &&& step@ is Ask && step@->Ask_1 == action@
                &&& progress is Finished ==> step@->Ask_0 is Finished
                &&& progress matches ParseProgress::Transcript { verify_data } ==> step@->Ask_0 == (
                ParseProgressView::Transcript { verify_data: verify_data@ })
            },
            Step::Done(_) => step@ is Done,
            Step::Fail(failure) => step@ is Fail && step@->Fail_0 == failure,
        },
{
}

} // verus!

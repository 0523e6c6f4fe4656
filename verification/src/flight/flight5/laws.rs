//! What holds of every run of flight 5, whatever the replies.

use vstd::prelude::*;

use crate::config::{CertificateView, HandshakeConfig};
use crate::error::Error;
use crate::flight::flight5::generate::{
    empty_draft, first_messages, generate_begin, generate_resume, DraftView, GenerateProgressView,
    GenerateStageView, GenerateStep,
};
use crate::flight::flight5::initialize::{
    has_listed_scheme, initialize_begin, initialize_resume, InitializeProgressView, InitializeStep,
};
use crate::flight::flight5::initialize_laws::{
    application_check, certificate_check, has_master_secret, initialize_events_left, keys_are_set,
    must_authenticate, signature_check,
};
use crate::flight::flight5::parse::{
    message_of_type, parse_begin, parse_resume, vouches_for, ParseProgressView,
};
use crate::flight::flight5::{key_exchange_rules, server_key_exchange_rules, transcript_rules};
use crate::flight::{ActionView, EventView, PulledMessageView, StepView};
use crate::handshake::{
    no_server_key_exchange, numbered, HandshakeMessageView, HandshakeType, ServerKeyExchangeView,
};
use crate::prf::{client_verify_data, server_verify_data, VERIFY_DATA_LENGTH};
use crate::record_layer::{
    first_encrypted_packet, plain_packet, ContentView, PacketView,
};
use crate::signature_hash_algorithm::SignatureHashAlgorithm;
use crate::state::StateView;

verus! {

/// How far the flight has come after `events`.
pub open spec fn generate_run(
    start: StateView,
    cfg: HandshakeConfig,
    events: Seq<EventView>,
) -> GenerateStep
    decreases events.len(),
{
    if events.len() == 0 {
        generate_begin(start, cfg)
    } else {
        let before = generate_run(start, cfg, events.drop_last());
        match before.1 {
            StepView::Ask(progress, _) => generate_resume(progress, events.last(), before.0, cfg),
            _ => before,
        }
    }
}

/// Tells whether each event answers what the flight had asked for, and each
/// step could be taken.
pub open spec fn is_generate_run(
    start: StateView,
    cfg: HandshakeConfig,
    events: Seq<EventView>,
) -> bool
    decreases events.len(),
{
    events.len() > 0 ==> {
        let before = generate_run(start, cfg, events.drop_last());
        &&& is_generate_run(start, cfg, events.drop_last())
        &&& before.1 is Ask
        &&& events.last().answers(before.1->Ask_1)
        &&& before.1->Ask_0.can_resume(before.0, cfg)
    }
}

/// The bytes of the messages that were written during a run.
pub open spec fn written_bytes(
    start: StateView,
    cfg: HandshakeConfig,
    events: Seq<EventView>,
) -> Seq<u8>
    decreases events.len(),
{
    if events.len() == 0 {
        Seq::empty()
    } else {
        let front = events.drop_last();
        let written = written_bytes(start, cfg, front);
        match (generate_run(start, cfg, front).1, events.last()) {
            (
                StepView::Ask(_, ActionView::MarshalHandshake { .. }),
                EventView::Data(Ok(raw)),
            ) => written + raw,
            _ => written,
        }
    }
}

/// The certificate that was chosen for this side, where there was one to choose.
pub open spec fn chosen_certificate(cfg: HandshakeConfig, events: Seq<EventView>) -> Option<
    CertificateView,
> {
    if cfg.local_certificates@.len() > 0 && events.len() > 0 {
        match events[0] {
            EventView::Certificate(Ok(certificate)) => Some(certificate),
            _ => None,
        }
    } else {
        None
    }
}

/// Tells whether the client has to prove that it has its private key.
pub open spec fn proves_possession(start: StateView, cfg: HandshakeConfig) -> bool {
    start.remote_requested_certificate && cfg.local_certificates@.len() > 0
}

/// The number of the first message of the flight.
pub open spec fn first_sequence(start: StateView) -> u16 {
    start.handshake_send_sequence as u16
}

/// The packet with the message `message`, which has the number `sequence`.
pub open spec fn message_packet(message: HandshakeMessageView, sequence: int) -> PacketView {
    plain_packet(ContentView::Handshake(numbered(message, sequence as u16)))
}

/// Tells whether a packet carries the signature of the client.
pub open spec fn is_verify_packet(packet: PacketView, sequence: int, signature: Seq<u8>) -> bool {
    exists|scheme: SignatureHashAlgorithm|
        packet == message_packet(
            #[trigger] verify_message(scheme, signature),
            sequence,
        )
}

/// The message with the signature of the client.
pub open spec fn verify_message(
    scheme: SignatureHashAlgorithm,
    signature: Seq<u8>,
) -> HandshakeMessageView {
    HandshakeMessageView::CertificateVerify {
        hash_algorithm: scheme.hash,
        signature_algorithm: scheme.signature,
        signature,
    }
}

/// Tells whether `packets` are flight 5: the first messages and, where the
/// client has to prove that it has its private key, the signature, numbered
/// one after the other; then the change of the cipher; then, encrypted, the
/// Finished message with the verify data of the state.
pub open spec fn is_flight(
    packets: Seq<PacketView>,
    start: StateView,
    end: StateView,
    cfg: HandshakeConfig,
    certificate: Option<CertificateView>,
) -> bool {
    let messages = first_messages(start, cfg, certificate);
    let first = first_sequence(start);
    let n = messages.len() as int;
    let m = if proves_possession(start, cfg) {
        n + 1
    } else {
        n
    };
    &&& packets.len() == m + 2
    &&& forall|i: int|
        0 <= i < n ==> #[trigger] packets[i] == message_packet(messages[i], first + i)
    &&& proves_possession(start, cfg) ==> is_verify_packet(
        packets[n],
        first + n,
        end.local_certificates_verify,
    )
    &&& packets[m] == plain_packet(ContentView::ChangeCipherSpec)
    &&& packets[m + 1] == first_encrypted_packet(
        ContentView::Handshake(
            numbered(HandshakeMessageView::Finished { verify_data: end.local_verify_data }, 0),
        ),
    )
}

/// Tells whether `end` differs from `start` only in what the flight settles:
/// the secrets, the key pair, whether the keys are set, and what was sent as
/// signature and as verify data.
pub open spec fn settles_only_secrets(start: StateView, end: StateView) -> bool {
    &&& end == StateView {
        master_secret: end.master_secret,
        pre_master_secret: end.pre_master_secret,
        local_keypair: end.local_keypair,
        cipher_suite: end.cipher_suite,
        local_certificates_verify: end.local_certificates_verify,
        local_verify_data: end.local_verify_data,
        ..start
    }
    &&& end.cipher_suite is Some <==> start.cipher_suite is Some
    &&& end.cipher_suite is Some ==> end.cipher_suite->0.id == start.cipher_suite->0.id
    &&& end.cipher_suite is Some && start.cipher_suite->0.initialized
        ==> end.cipher_suite->0.initialized
}

/// What holds of a flight in the making, by what it waits for.
pub open spec fn is_draft_on_course(
    progress: GenerateProgressView,
    state: StateView,
    start: StateView,
    cfg: HandshakeConfig,
    certificate: Option<CertificateView>,
    written: Seq<u8>,
) -> bool {
    let draft = progress.draft;
    let stage = progress.stage;
    let n = draft.unsent.len() as int;
    let packets = draft.packets;
    let first = first_sequence(start);
    if stage is Certificate {
        draft == empty_draft() && written == Seq::<u8>::empty()
    } else {
        &&& draft.certificate == certificate
        &&& draft.unsent == first_messages(start, cfg, certificate)
        &&& draft.merged == written
        &&& forall|i: int|
            0 <= i < n && i < packets.len() ==> #[trigger] packets[i] == message_packet(
                draft.unsent[i],
                first + i,
            )
        &&& match stage {
            GenerateStageView::Certificate => true,
            GenerateStageView::ServerKeyExchange => packets.len() == 0,
            GenerateStageView::KeyAgreement => packets.len() == 0,
            GenerateStageView::Handshake => packets.len() == 0,
            GenerateStageView::Number => {
                packets.len() < n && draft.next_sequence == first + packets.len()
            },
            GenerateStageView::Marshal => {
                0 < packets.len() <= n && draft.next_sequence == first + packets.len()
            },
            GenerateStageView::Initialize(_) => {
                packets.len() == n && draft.next_sequence == first + n
            },
            GenerateStageView::VerifyTranscript => {
                &&& packets.len() == n && draft.next_sequence == first + n
                &&& proves_possession(start, cfg) && keys_are_set(state)
            },
            GenerateStageView::SignatureScheme { .. } => {
                &&& packets.len() == n && draft.next_sequence == first + n
                &&& proves_possession(start, cfg) && keys_are_set(state)
            },
            GenerateStageView::CertificateVerify { .. } => {
                &&& packets.len() == n && draft.next_sequence == first + n
                &&& proves_possession(start, cfg) && keys_are_set(state)
            },
            GenerateStageView::MarshalVerify => {
                &&& packets.len() == n + 1
                &&& is_verify_packet(packets[n], first + n, state.local_certificates_verify)
                &&& proves_possession(start, cfg) && keys_are_set(state)
            },
            GenerateStageView::Finish => {
                &&& has_first_packets(packets, n, state, start, cfg)
                &&& packets.len() == first_packets(n, start, cfg)
                &&& keys_are_set(state)
            },
            GenerateStageView::Transcript => {
                &&& has_first_packets(packets, n, state, start, cfg)
                &&& packets.len() == first_packets(n, start, cfg) + 1
                &&& packets.last() == plain_packet(ContentView::ChangeCipherSpec)
                &&& keys_are_set(state) && start.local_verify_data.len() == 0
            },
        }
    }
}

/// How many packets come before the change of the cipher.
pub open spec fn first_packets(n: int, start: StateView, cfg: HandshakeConfig) -> int {
    if proves_possession(start, cfg) {
        n + 1
    } else {
        n
    }
}

/// Tells whether the signature is where it has to be.
pub open spec fn has_first_packets(
    packets: Seq<PacketView>,
    n: int,
    state: StateView,
    start: StateView,
    cfg: HandshakeConfig,
) -> bool {
    proves_possession(start, cfg) ==> is_verify_packet(
        packets[n],
        first_sequence(start) + n,
        state.local_certificates_verify,
    )
}

/// Tells whether a progress and what it asks for belong together.
pub open spec fn asks_rightly(
    progress: GenerateProgressView,
    action: ActionView,
    cfg: HandshakeConfig,
) -> bool {
    let (stage, draft) = (progress.stage, progress.draft);
    &&& forall|event: EventView| #[trigger] event.answers(action) <==> progress.awaits(event)
    &&& action is MarshalHandshake <==> (stage is Marshal || stage is MarshalVerify)
    &&& action matches ActionView::MarshalHandshake { handshake } ==> draft.packets.len() > 0
        && draft.packets.last() == plain_packet(ContentView::Handshake(handshake))
    &&& action is UnmarshalHandshake <==> stage is Handshake
    &&& action is VerifyCert <==> (stage is Initialize && stage->Initialize_0 is Chains)
    &&& match stage {
        GenerateStageView::ServerKeyExchange => action == (ActionView::PullAndMerge {
            rules: server_key_exchange_rules(cfg.initial_epoch),
        }),
        GenerateStageView::VerifyTranscript => action == (ActionView::PullAndMerge {
            rules: key_exchange_rules(cfg.initial_epoch),
        }),
        GenerateStageView::SignatureScheme { .. } => action == (ActionView::SelectSignatureScheme {
            schemes: cfg.local_signature_schemes@,
            private_key: draft.certificate->0.private_key,
        }),
        GenerateStageView::Transcript => action == (ActionView::PullAndMerge {
            rules: transcript_rules(cfg.initial_epoch),
        }),
        _ => true,
    }
}

/// What holds after every step of a run.
pub open spec fn is_on_course(
    step: GenerateStep,
    start: StateView,
    cfg: HandshakeConfig,
    certificate: Option<CertificateView>,
    written: Seq<u8>,
) -> bool {
    &&& settles_only_secrets(start, step.0)
    &&& match step.1 {
        StepView::Ask(progress, action) => {
            &&& asks_rightly(progress, action, cfg)
            &&& progress.well_formed(cfg)
            &&& step.0.local_verify_data == start.local_verify_data
            &&& is_draft_on_course(progress, step.0, start, cfg, certificate, written)
        },
        StepView::Done(packets) => {
            &&& is_flight(packets, start, step.0, cfg, certificate)
            &&& keys_are_set(step.0)
        },
        StepView::Fail(_) => true,
    }
}

/// The first step is on course.
proof fn lemma_begin_on_course(start: StateView, cfg: HandshakeConfig)
    ensures
        is_on_course(generate_begin(start, cfg), start, cfg, None, Seq::empty()),
{
}

/// What the cipher suite does on its way keeps all but the secrets.
proof fn lemma_initialize_step(
    progress: InitializeProgressView,
    event: EventView,
    state: StateView,
    cfg: HandshakeConfig,
)
    requires
        progress.awaits(event),
    ensures
        is_initialize_step(initialize_resume(progress, event, state, cfg), state),
{
}

/// As `lemma_initialize_step`, of the first step.
proof fn lemma_initialize_begin(state: StateView, cfg: HandshakeConfig, draft: DraftView)
    ensures
        is_initialize_step(
            initialize_begin(state, cfg, draft.server_key_exchange, draft.merged),
            state,
        ),
{
}

/// What holds after every step of the cipher suite.
pub open spec fn is_initialize_step(step: InitializeStep, before: StateView) -> bool {
    &&& settles_only_secrets(before, step.0)
    &&& step.0.local_verify_data == before.local_verify_data
    &&& step.0.local_certificates_verify == before.local_certificates_verify
    &&& step.0.pre_master_secret == before.pre_master_secret
    &&& step.0.local_keypair == before.local_keypair
    &&& step.1 is Done ==> keys_are_set(step.0)
    &&& match step.1 {
        StepView::Ask(progress, action) => {
            &&& forall|event: EventView| #[trigger]
                event.answers(action) <==> progress.awaits(event)
            &&& action !is MarshalHandshake
            &&& action !is UnmarshalHandshake
            &&& action is VerifyCert <==> progress is Chains
        },
        _ => true,
    }
}

/// A step of a run that is on course stays on course.
#[verifier::rlimit(40)]
proof fn lemma_step_on_course(
    step: GenerateStep,
    event: EventView,
    start: StateView,
    cfg: HandshakeConfig,
    certificate: Option<CertificateView>,
    written: Seq<u8>,
)
    requires
        is_on_course(step, start, cfg, certificate, written),
        step.1 is Ask,
        step.1->Ask_0.stage !is Certificate,
        event.answers(step.1->Ask_1),
        step.1->Ask_0.can_resume(step.0, cfg),
    ensures
        is_on_course(
            generate_resume(step.1->Ask_0, event, step.0, cfg),
            start,
            cfg,
            certificate,
            match (step.1->Ask_1, event) {
                (ActionView::MarshalHandshake { .. }, EventView::Data(Ok(raw))) => written + raw,
                _ => written,
            },
        ),
{
    let progress = step.1->Ask_0;
    let draft = progress.draft;
    match progress.stage {
        GenerateStageView::Initialize(inner) => {
            lemma_initialize_step(inner, event, step.0, cfg);
        },
        GenerateStageView::Marshal => {
            if event is Data && event->Data_0 is Ok {
                let draft = DraftView { merged: draft.merged + event->Data_0->Ok_0, ..draft };
                lemma_initialize_begin(step.0, cfg, draft);
            }
        },
        GenerateStageView::CertificateVerify { scheme } => {
            if event is Data && event->Data_0 is Ok {
                let packet = message_packet(
                    verify_message(scheme, event->Data_0->Ok_0),
                    draft.next_sequence as int,
                );
                assert(is_verify_packet(
                    packet,
                    draft.next_sequence as int,
                    event->Data_0->Ok_0,
                ));
            }
        },
        _ => {},
    }
}

/// Every run stays on course.
pub(crate) proof fn lemma_run_on_course(start: StateView, cfg: HandshakeConfig, events: Seq<EventView>)
    requires
        is_generate_run(start, cfg, events),
    ensures
        is_on_course(
            generate_run(start, cfg, events),
            start,
            cfg,
            chosen_certificate(cfg, events),
            written_bytes(start, cfg, events),
        ),
        generate_run(start, cfg, events).1 matches StepView::Ask(progress, _) ==> (
        progress.stage is Certificate <==> events.len() == 0 && cfg.local_certificates@.len() > 0),
    decreases events.len(),
{
    if events.len() == 0 {
        lemma_begin_on_course(start, cfg);
    } else {
        let front = events.drop_last();
        let before = generate_run(start, cfg, front);
        lemma_run_on_course(start, cfg, front);
        let progress = before.1->Ask_0;
        if progress.stage is Certificate {
            assert(events.len() == 1 && events[0] == events.last());
        } else {
            if front.len() > 0 {
                assert(events[0] == front[0]);
            } else {
                assert(cfg.local_certificates@.len() == 0);
            }
            lemma_step_on_course(
                before,
                events.last(),
                start,
                cfg,
                chosen_certificate(cfg, front),
                written_bytes(start, cfg, front),
            );
        }
    }
}

/// Whatever the replies, a flight that is made consists of the first messages
/// and, where the client has to prove that it has its private key, its
/// signature, numbered one after the other; then the change of the cipher;
/// then, encrypted, the Finished message.
pub proof fn law_flight_packets(start: StateView, cfg: HandshakeConfig, events: Seq<EventView>)
    requires
        is_generate_run(start, cfg, events),
        generate_run(start, cfg, events).1 is Done,
    ensures
        is_flight(
            generate_run(start, cfg, events).1->Done_0,
            start,
            generate_run(start, cfg, events).0,
            cfg,
            chosen_certificate(cfg, events),
        ),
{
    lemma_run_on_course(start, cfg, events);
}

/// Only the last packet of the flight is encrypted and of the next epoch, and
/// only it starts the record numbers anew.
pub proof fn law_only_finished_is_encrypted(
    start: StateView,
    cfg: HandshakeConfig,
    events: Seq<EventView>,
    i: int,
)
    requires
        is_generate_run(start, cfg, events),
        generate_run(start, cfg, events).1 is Done,
        0 <= i < generate_run(start, cfg, events).1->Done_0.len(),
    ensures
        ({
            let packets = generate_run(start, cfg, events).1->Done_0;
            let is_last = i == packets.len() - 1;
            &&& packets[i].should_encrypt == is_last
            &&& packets[i].reset_local_sequence_number == is_last
            &&& packets[i].epoch == if is_last {
                1u16
            } else {
                0u16
            }
        }),
{
    law_flight_packets(start, cfg, events);
}

/// A flight is only finished once the keys of the cipher suite are set.
pub proof fn law_keys_set_before_finished(
    start: StateView,
    cfg: HandshakeConfig,
    events: Seq<EventView>,
)
    requires
        is_generate_run(start, cfg, events),
        generate_run(start, cfg, events).1 is Done,
    ensures
        keys_are_set(generate_run(start, cfg, events).0),
{
    lemma_run_on_course(start, cfg, events);
}

/// However far a flight comes, it changes nothing in the state but the
/// secrets, the key pair, whether the keys are set, and what was sent as
/// signature and as verify data.  Where there is no cipher suite, or its keys
/// were set before, the master secret does not change either.
pub proof fn law_flight_settles_only_secrets(
    start: StateView,
    cfg: HandshakeConfig,
    events: Seq<EventView>,
)
    requires
        is_generate_run(start, cfg, events),
    ensures
        settles_only_secrets(start, generate_run(start, cfg, events).0),
        start.cipher_suite is None || start.cipher_suite->0.initialized ==> {
            generate_run(start, cfg, events).0.master_secret == start.master_secret
        },
{
    lemma_run_on_course(start, cfg, events);
    lemma_run_derives_secret(start, cfg, events);
}

/// Whatever a flight in the making asks for, it takes exactly the answers to
/// that, and the draft it goes on with is well formed.
pub proof fn law_flight_takes_answers(
    start: StateView,
    cfg: HandshakeConfig,
    events: Seq<EventView>,
    event: EventView,
)
    requires
        is_generate_run(start, cfg, events),
    ensures
        generate_run(start, cfg, events).1 matches StepView::Ask(progress, action) ==> {
            &&& progress.awaits(event) <==> event.answers(action)
            &&& progress.well_formed(cfg)
        },
{
    lemma_run_on_course(start, cfg, events);
}

/// Whatever message a flight in the making asks to be written, it is the one
/// that its last packet carries.
pub proof fn law_written_message_is_in_last_packet(
    start: StateView,
    cfg: HandshakeConfig,
    events: Seq<EventView>,
)
    requires
        is_generate_run(start, cfg, events),
    ensures
        generate_run(start, cfg, events).1 matches StepView::Ask(
            progress,
            ActionView::MarshalHandshake { handshake },
        ) ==> {
            &&& progress.draft.packets.len() > 0
            &&& progress.draft.packets.last() == plain_packet(ContentView::Handshake(handshake))
        },
{
    lemma_run_on_course(start, cfg, events);
}

/// The packets with the messages that were written during a run, in their
/// order.
pub open spec fn written_packets(
    start: StateView,
    cfg: HandshakeConfig,
    events: Seq<EventView>,
) -> Seq<PacketView>
    decreases events.len(),
{
    if events.len() == 0 {
        Seq::empty()
    } else {
        let front = events.drop_last();
        let written = written_packets(start, cfg, front);
        match (generate_run(start, cfg, front).1, events.last()) {
            (
                StepView::Ask(_, ActionView::MarshalHandshake { handshake }),
                EventView::Data(Ok(_)),
            ) => written.push(plain_packet(ContentView::Handshake(handshake))),
            _ => written,
        }
    }
}

/// Which of the packets have been written, by what the flight waits for.
spec fn is_written_so_far(step: GenerateStep, written: Seq<PacketView>) -> bool {
    match step.1 {
        StepView::Ask(progress, _) => {
            let packets = progress.draft.packets;
            match progress.stage {
                GenerateStageView::Marshal => written == packets.drop_last(),
                GenerateStageView::MarshalVerify => written == packets.drop_last(),
                GenerateStageView::Transcript => written == packets.drop_last(),
                _ => written == packets,
            }
        },
        StepView::Done(packets) => packets.len() >= 2 && written == packets.take(packets.len() - 2),
        StepView::Fail(_) => true,
    }
}

/// Every run writes the messages of its packets on its way.
#[verifier::rlimit(40)]
proof fn lemma_run_writes_packets(start: StateView, cfg: HandshakeConfig, events: Seq<EventView>)
    requires
        is_generate_run(start, cfg, events),
    ensures
        is_written_so_far(
            generate_run(start, cfg, events),
            written_packets(start, cfg, events),
        ),
    decreases events.len(),
{
    if events.len() > 0 {
        let front = events.drop_last();
        let before = generate_run(start, cfg, front);
        let after = generate_run(start, cfg, events);
        lemma_run_on_course(start, cfg, front);
        lemma_run_writes_packets(start, cfg, front);
        let progress = before.1->Ask_0;
        let packets = progress.draft.packets;
        assert(progress.awaits(events.last()));
        if packets.len() > 0 {
            assert(packets.drop_last().push(packets.last()) =~= packets);
        }
        if after.1 is Ask {
            let next = after.1->Ask_0.draft.packets;
            if next.len() == packets.len() + 1 {
                assert(next.drop_last() =~= packets);
            }
        }
        if after.1 is Done {
            let done = after.1->Done_0;
            if progress.stage is Transcript {
                assert(done.take(done.len() - 2) =~= packets.drop_last());
            } else {
                assert(done.take(done.len() - 2) =~= packets);
            }
        }
    }
}

/// The messages whose bytes are signed and vouched for are those that are sent:
/// the messages that were written during the run of a flight are, in their
/// order, those of all its packets before the change of the cipher.
pub proof fn law_written_messages_are_sent(
    start: StateView,
    cfg: HandshakeConfig,
    events: Seq<EventView>,
)
    requires
        is_generate_run(start, cfg, events),
        generate_run(start, cfg, events).1 is Done,
    ensures
        ({
            let packets = generate_run(start, cfg, events).1->Done_0;
            &&& packets.len() >= 2
            &&& written_packets(start, cfg, events) == packets.take(packets.len() - 2)
        }),
{
    lemma_run_writes_packets(start, cfg, events);
}

/// Verify data that had been sent before are sent again as they were.
/// Otherwise they vouch, under the master secret, for the messages of the
/// handshake up to the client's Finished, which were looked up last, and for
/// those that were written for this flight.
pub proof fn law_flight_verify_data(start: StateView, cfg: HandshakeConfig, events: Seq<EventView>)
    requires
        is_generate_run(start, cfg, events),
        generate_run(start, cfg, events).1 is Done,
    ensures
        ({
            let end = generate_run(start, cfg, events).0;
            let sent = end.local_verify_data;
            if start.local_verify_data.len() > 0 {
                sent == start.local_verify_data
            } else if start.cipher_suite is None {
                sent.len() == 0
            } else {
                &&& events.len() > 0
                &&& generate_run(start, cfg, events.drop_last()).1 is Ask
                &&& generate_run(start, cfg, events.drop_last()).1->Ask_1 == (
                ActionView::PullAndMerge { rules: transcript_rules(cfg.initial_epoch) })
                &&& events.last() is Merged
                &&& sent == client_verify_data(
                    end.master_secret,
                    events.last()->Merged_0 + written_bytes(start, cfg, events),
                    end.cipher_suite->0.spec_hash_func(),
                )
            }
        }),
{
    let front = events.drop_last();
    lemma_run_on_course(start, cfg, front);
    lemma_run_on_course(start, cfg, events);
}

/// A reply that reports an error ends the flight at once, and leaves the state
/// as it was.
pub proof fn law_error_ends_flight(
    progress: GenerateProgressView,
    event: EventView,
    state: StateView,
    cfg: HandshakeConfig,
)
    requires
        progress.awaits(event),
        event.is_error(),
    ensures
        generate_resume(progress, event, state, cfg).1 is Fail,
        generate_resume(progress, event, state, cfg).0 == state,
{
}

/// In the run of a flight that has not failed no reply reported an error.
pub proof fn law_flight_met_no_error(
    start: StateView,
    cfg: HandshakeConfig,
    events: Seq<EventView>,
    i: int,
)
    requires
        is_generate_run(start, cfg, events),
        generate_run(start, cfg, events).1 !is Fail,
        0 <= i < events.len(),
    ensures
        !events[i].is_error(),
    decreases events.len(),
{
    let front = events.drop_last();
    let before = generate_run(start, cfg, front);
    lemma_run_on_course(start, cfg, front);
    assert(before.1->Ask_0.awaits(events.last()));
    if events.last().is_error() {
        law_error_ends_flight(before.1->Ask_0, events.last(), before.0, cfg);
    }
    if i < front.len() {
        law_flight_met_no_error(start, cfg, front, i);
        assert(front[i] == events[i]);
    }
}

/// How many events the flight can still take.
pub open spec fn events_left(step: GenerateStep) -> int {
    match step.1 {
        StepView::Ask(progress, _) => {
            let unnumbered = progress.draft.unsent.len() - progress.draft.packets.len();
            match progress.stage {
                GenerateStageView::Certificate => 19,
                GenerateStageView::ServerKeyExchange => 18,
                GenerateStageView::KeyAgreement => 17,
                GenerateStageView::Handshake => 17,
                GenerateStageView::Number => 12 + 2 * unnumbered,
                GenerateStageView::Marshal => 13 + 2 * unnumbered,
                GenerateStageView::Initialize(inner) => 6 + initialize_events_left(inner),
                GenerateStageView::VerifyTranscript => 6,
                GenerateStageView::SignatureScheme { .. } => 5,
                GenerateStageView::CertificateVerify { .. } => 4,
                GenerateStageView::MarshalVerify => 3,
                GenerateStageView::Finish => 2,
                GenerateStageView::Transcript => 1,
            }
        },
        _ => 0,
    }
}

/// Every event brings the flight nearer to its end.
#[verifier::rlimit(40)]
proof fn lemma_events_left(start: StateView, cfg: HandshakeConfig, events: Seq<EventView>)
    requires
        is_generate_run(start, cfg, events),
    ensures
        0 <= events_left(generate_run(start, cfg, events)),
        events.len() + events_left(generate_run(start, cfg, events)) <= 19,
    decreases events.len(),
{
    lemma_run_on_course(start, cfg, events);
    if events.len() > 0 {
        let front = events.drop_last();
        lemma_run_on_course(start, cfg, front);
        lemma_events_left(start, cfg, front);
    }
}

/// A flight ends, made or failed, after nineteen events at the latest.
pub proof fn law_flight_ends(start: StateView, cfg: HandshakeConfig, events: Seq<EventView>)
    requires
        is_generate_run(start, cfg, events),
    ensures
        events.len() <= 19,
        events.len() == 19 ==> generate_run(start, cfg, events).1 !is Ask,
{
    lemma_events_left(start, cfg, events);
    lemma_run_on_course(start, cfg, events);
}

/// The server's share of the key exchange: the one that was read during a run,
/// or none.
pub open spec fn server_share(
    start: StateView,
    cfg: HandshakeConfig,
    events: Seq<EventView>,
) -> ServerKeyExchangeView
    decreases events.len(),
{
    if events.len() == 0 {
        no_server_key_exchange()
    } else {
        let front = events.drop_last();
        match (generate_run(start, cfg, front).1, events.last()) {
            (
                StepView::Ask(_, ActionView::UnmarshalHandshake { .. }),
                EventView::Handshake(Ok(handshake)),
            ) => match handshake.handshake_message {
                HandshakeMessageView::ServerKeyExchange(h) => h,
                _ => server_share(start, cfg, front),
            },
            _ => server_share(start, cfg, front),
        }
    }
}

/// The chains to the server's certificate that were found during a run.
pub open spec fn server_chains(
    start: StateView,
    cfg: HandshakeConfig,
    events: Seq<EventView>,
) -> Seq<Seq<u8>>
    decreases events.len(),
{
    if events.len() == 0 {
        Seq::empty()
    } else {
        let front = events.drop_last();
        match (generate_run(start, cfg, front).1, events.last()) {
            (
                StepView::Ask(_, ActionView::VerifyCert { .. }),
                EventView::Chains(Ok(chains)),
            ) => chains,
            _ => server_chains(start, cfg, front),
        }
    }
}

/// Tells whether `action` was asked for during a run, and did not fail.
pub open spec fn passed(
    start: StateView,
    cfg: HandshakeConfig,
    events: Seq<EventView>,
    action: ActionView,
) -> bool
    decreases events.len(),
{
    events.len() > 0 && {
        let front = events.drop_last();
        ||| passed(start, cfg, front, action)
        ||| {
            &&& generate_run(start, cfg, front).1 is Ask
            &&& generate_run(start, cfg, front).1->Ask_1 == action
            &&& !events.last().is_error()
        }
    }
}

/// Tells whether the server passed every check that the settings ask for: the
/// scheme of its share is listed, its signature over both randoms and its share
/// is good, and so is its certificate, also in the eyes of the application.
pub open spec fn is_authenticated(
    start: StateView,
    cfg: HandshakeConfig,
    events: Seq<EventView>,
) -> bool {
    let h = server_share(start, cfg, events);
    &&& has_listed_scheme(h, cfg)
    &&& passed(start, cfg, events, signature_check(start, h))
    &&& !cfg.insecure_skip_verify ==> passed(start, cfg, events, certificate_check(start))
    &&& cfg.has_verify_peer_certificate ==> passed(
        start,
        cfg,
        events,
        application_check(start, server_chains(start, cfg, events)),
    )
}

/// What the server has sent and passed, by what the flight waits for.  `h` is
/// its share and `chains` are those found so far.
spec fn is_checked_so_far(
    step: GenerateStep,
    start: StateView,
    cfg: HandshakeConfig,
    events: Seq<EventView>,
    h: ServerKeyExchangeView,
    chains: Seq<Seq<u8>>,
) -> bool {
    match step.1 {
        StepView::Ask(progress, action) => match progress.stage {
            GenerateStageView::Initialize(inner) => match inner {
                InitializeProgressView::SessionHash { server_key_exchange, .. } => {
                    server_key_exchange == h && chains == Seq::<Seq<u8>>::empty()
                },
                InitializeProgressView::Authenticate { server_key_exchange } => {
                    server_key_exchange == h && chains == Seq::<Seq<u8>>::empty()
                },
                InitializeProgressView::KeySignature { certificate } => {
                    &&& has_listed_scheme(h, cfg)
                    &&& certificate == start.peer_certificates[0]
                    &&& action == signature_check(start, h)
                    &&& chains == Seq::<Seq<u8>>::empty()
                },
                InitializeProgressView::Chains { certificate } => {
                    &&& has_listed_scheme(h, cfg)
                    &&& certificate == start.peer_certificates[0]
                    &&& !cfg.insecure_skip_verify
                    &&& action == certificate_check(start)
                    &&& passed(start, cfg, events, signature_check(start, h))
                },
                InitializeProgressView::PeerCertificate => {
                    &&& has_listed_scheme(h, cfg)
                    &&& action == application_check(start, chains)
                    &&& passed(start, cfg, events, signature_check(start, h))
                    &&& !cfg.insecure_skip_verify ==> passed(
                        start,
                        cfg,
                        events,
                        certificate_check(start),
                    )
                },
                InitializeProgressView::Keys => is_authenticated(start, cfg, events),
            },
            GenerateStageView::Certificate => is_untouched(step, start, h, chains),
            GenerateStageView::ServerKeyExchange => is_untouched(step, start, h, chains),
            GenerateStageView::KeyAgreement => is_untouched(step, start, h, chains),
            GenerateStageView::Handshake => is_untouched(step, start, h, chains),
            GenerateStageView::Number => is_untouched(step, start, h, chains),
            GenerateStageView::Marshal => is_untouched(step, start, h, chains),
            _ => is_authenticated(start, cfg, events),
        },
        StepView::Done(_) => is_authenticated(start, cfg, events),
        StepView::Fail(_) => true,
    }
}

/// Tells whether nothing of the server has been checked yet.
spec fn is_untouched(
    step: GenerateStep,
    start: StateView,
    h: ServerKeyExchangeView,
    chains: Seq<Seq<u8>>,
) -> bool {
    &&& step.0.cipher_suite == start.cipher_suite
    &&& step.1->Ask_0.draft.server_key_exchange == h
    &&& step.1->Ask_0.stage !is Number && step.1->Ask_0.stage !is Marshal ==> h
        == no_server_key_exchange()
    &&& chains == Seq::<Seq<u8>>::empty()
}

/// Every run checks the server on its way.
#[verifier::rlimit(80)]
proof fn lemma_run_checks_server(start: StateView, cfg: HandshakeConfig, events: Seq<EventView>)
    requires
        is_generate_run(start, cfg, events),
        must_authenticate(start, cfg),
    ensures
        is_checked_so_far(
            generate_run(start, cfg, events),
            start,
            cfg,
            events,
            server_share(start, cfg, events),
            server_chains(start, cfg, events),
        ),
    decreases events.len(),
{
    if events.len() > 0 {
        let front = events.drop_last();
        lemma_run_on_course(start, cfg, front);
        lemma_run_checks_server(start, cfg, front);
        assert(generate_run(start, cfg, front).1->Ask_0.awaits(events.last()));
    }
}

/// Without a pre-shared key, and unless the keys were set before, no flight is
/// made before the server has passed every check that the settings ask for.
pub proof fn law_server_is_authenticated(
    start: StateView,
    cfg: HandshakeConfig,
    events: Seq<EventView>,
)
    requires
        is_generate_run(start, cfg, events),
        generate_run(start, cfg, events).1 is Done,
        must_authenticate(start, cfg),
    ensures
        is_authenticated(start, cfg, events),
{
    lemma_run_checks_server(start, cfg, events);
}

/// Tells whether the messages up to the client's key exchange were looked up
/// with the event `i` of a run.
pub open spec fn looks_up_at(
    start: StateView,
    cfg: HandshakeConfig,
    events: Seq<EventView>,
    i: int,
) -> bool {
    let step = generate_run(start, cfg, events.take(i));
    &&& 0 <= i < events.len()
    &&& step.1 is Ask
    &&& step.1->Ask_1 == (ActionView::PullAndMerge { rules: key_exchange_rules(cfg.initial_epoch) })
    &&& events[i] is Merged
}

/// The messages that are signed, where they were looked up with the event `i`:
/// those, and behind them the ones that had been written for this flight.
pub open spec fn signed_text(
    start: StateView,
    cfg: HandshakeConfig,
    events: Seq<EventView>,
    i: int,
) -> Seq<u8> {
    events[i]->Merged_0 + written_bytes(start, cfg, events.take(i))
}

/// The private key of the certificate that was chosen for this side.
pub open spec fn chosen_key(cfg: HandshakeConfig, events: Seq<EventView>) -> u64 {
    chosen_certificate(cfg, events)->0.private_key
}

/// Tells whether the scheme for that key was chosen, among the listed ones,
/// with the event after `i`.
pub open spec fn chooses_scheme_after(
    start: StateView,
    cfg: HandshakeConfig,
    events: Seq<EventView>,
    i: int,
) -> bool {
    let step = generate_run(start, cfg, events.take(i + 1));
    &&& i + 1 < events.len()
    &&& step.1 is Ask
    &&& step.1->Ask_1 == (ActionView::SelectSignatureScheme {
        schemes: cfg.local_signature_schemes@,
        private_key: chosen_key(cfg, events),
    })
    &&& events[i + 1] is Scheme
    &&& events[i + 1]->Scheme_0 is Ok
}

/// Tells whether the messages were signed with that key with the second event
/// after `i`.
pub open spec fn signs_after(
    start: StateView,
    cfg: HandshakeConfig,
    events: Seq<EventView>,
    i: int,
) -> bool {
    let step = generate_run(start, cfg, events.take(i + 2));
    &&& i + 2 < events.len()
    &&& step.1 is Ask
    &&& step.1->Ask_1 == (ActionView::GenerateCertificateVerify {
        plain_text: signed_text(start, cfg, events, i),
        private_key: chosen_key(cfg, events),
    })
    &&& events[i + 2] is Data
    &&& events[i + 2]->Data_0 is Ok
}

/// The message with the scheme and the signature that the events after `i`
/// brought.
pub open spec fn signature_message(events: Seq<EventView>, i: int) -> HandshakeMessageView {
    verify_message(events[i + 1]->Scheme_0->Ok_0, events[i + 2]->Data_0->Ok_0)
}

/// Tells whether `packet` proves that the client has the private key of its
/// certificate: the messages looked up with the event `i` and those written
/// before were signed with that key, under a listed scheme, and the packet
/// carries that scheme and that signature, which the state keeps.
pub open spec fn is_proof_of_possession(
    packet: PacketView,
    start: StateView,
    cfg: HandshakeConfig,
    events: Seq<EventView>,
    end: StateView,
    sequence: int,
    i: int,
) -> bool {
    &&& looks_up_at(start, cfg, events, i)
    &&& chooses_scheme_after(start, cfg, events, i)
    &&& signs_after(start, cfg, events, i)
    &&& packet == message_packet(signature_message(events, i), sequence)
    &&& end.local_certificates_verify == events[i + 2]->Data_0->Ok_0
}

/// What of the proof there is, by what the flight waits for.
spec fn is_proof_on_course(
    step: GenerateStep,
    start: StateView,
    cfg: HandshakeConfig,
    events: Seq<EventView>,
) -> bool {
    let len = events.len() as int;
    match step.1 {
        StepView::Ask(progress, action) => match progress.stage {
            GenerateStageView::SignatureScheme { plain_text } => {
                &&& looks_up_at(start, cfg, events, len - 1)
                &&& plain_text == signed_text(start, cfg, events, len - 1)
            },
            GenerateStageView::CertificateVerify { scheme } => {
                &&& looks_up_at(start, cfg, events, len - 2)
                &&& chooses_scheme_after(start, cfg, events, len - 2)
                &&& scheme == events[len - 1]->Scheme_0->Ok_0
                &&& action == (ActionView::GenerateCertificateVerify {
                    plain_text: signed_text(start, cfg, events, len - 2),
                    private_key: chosen_key(cfg, events),
                })
            },
            GenerateStageView::MarshalVerify => has_proof(
                progress.draft.packets,
                start,
                cfg,
                events,
                step.0,
            ),
            GenerateStageView::Finish => proves_possession(start, cfg) ==> has_proof(
                progress.draft.packets,
                start,
                cfg,
                events,
                step.0,
            ),
            GenerateStageView::Transcript => proves_possession(start, cfg) ==> has_proof(
                progress.draft.packets,
                start,
                cfg,
                events,
                step.0,
            ),
            _ => true,
        },
        StepView::Done(packets) => proves_possession(start, cfg) ==> has_proof(
            packets,
            start,
            cfg,
            events,
            step.0,
        ),
        StepView::Fail(_) => true,
    }
}

/// Tells whether the packet behind the two first messages proves that the
/// client has the private key of its certificate.
pub open spec fn has_proof(
    packets: Seq<PacketView>,
    start: StateView,
    cfg: HandshakeConfig,
    events: Seq<EventView>,
    end: StateView,
) -> bool {
    exists|i: int| #[trigger]
        is_proof_of_possession(
            packets[2],
            start,
            cfg,
            events,
            end,
            first_sequence(start) + 2,
            i,
        )
}

/// What happened up to an event stays when more events come.
proof fn lemma_past_stays(
    start: StateView,
    cfg: HandshakeConfig,
    events: Seq<EventView>,
    i: int,
)
    requires
        events.len() > 1,
        0 <= i < events.len() - 1,
    ensures
        ({
            let front = events.drop_last();
            &&& chosen_key(cfg, front) == chosen_key(cfg, events)
            &&& looks_up_at(start, cfg, front, i) ==> looks_up_at(start, cfg, events, i)
            &&& signed_text(start, cfg, front, i) == signed_text(start, cfg, events, i)
            &&& chooses_scheme_after(start, cfg, front, i) ==> chooses_scheme_after(
                start,
                cfg,
                events,
                i,
            )
            &&& signs_after(start, cfg, front, i) ==> {
                &&& signs_after(start, cfg, events, i)
                &&& signature_message(front, i) == signature_message(events, i)
            }
        }),
{
    let front = events.drop_last();
    assert(front[0] == events[0]);
    assert(front.take(i) =~= events.take(i));
    if i + 1 < front.len() {
        assert(front.take(i + 1) =~= events.take(i + 1));
    }
    if i + 2 < front.len() {
        assert(front.take(i + 2) =~= events.take(i + 2));
    }
}

/// A proof stays when more events come.
proof fn lemma_proof_stays(
    packets: Seq<PacketView>,
    more: Seq<PacketView>,
    start: StateView,
    cfg: HandshakeConfig,
    events: Seq<EventView>,
    before: StateView,
    after: StateView,
)
    requires
        events.len() > 0,
        has_proof(packets, start, cfg, events.drop_last(), before),
        packets[2] == more[2],
        before.local_certificates_verify == after.local_certificates_verify,
    ensures
        has_proof(more, start, cfg, events, after),
{
    let front = events.drop_last();
    let sequence = first_sequence(start) + 2;
    let i = choose|i: int| #[trigger]
        is_proof_of_possession(packets[2], start, cfg, front, before, sequence, i);
    lemma_past_stays(start, cfg, events, i);
    assert(is_proof_of_possession(more[2], start, cfg, events, after, sequence, i));
}

/// Every run makes the proof on its way.
#[verifier::rlimit(80)]
proof fn lemma_run_makes_proof(start: StateView, cfg: HandshakeConfig, events: Seq<EventView>)
    requires
        is_generate_run(start, cfg, events),
    ensures
        is_proof_on_course(generate_run(start, cfg, events), start, cfg, events),
    decreases events.len(),
{
    if events.len() > 0 {
        let front = events.drop_last();
        let before = generate_run(start, cfg, front);
        let after = generate_run(start, cfg, events);
        let event = events.last();
        let len = events.len() as int;
        lemma_run_on_course(start, cfg, front);
        lemma_run_makes_proof(start, cfg, front);
        let progress = before.1->Ask_0;
        let packets = progress.draft.packets;
        assert(progress.awaits(event));
        assert(events.take(len - 1) =~= front);
        match progress.stage {
            GenerateStageView::VerifyTranscript => {
                assert(looks_up_at(start, cfg, events, len - 1));
            },
            GenerateStageView::SignatureScheme { .. } => {
                lemma_past_stays(start, cfg, events, len - 2);
                assert(events[len - 2] == front[len - 2]);
            },
            GenerateStageView::CertificateVerify { scheme } => {
                lemma_past_stays(start, cfg, events, len - 3);
                if event->Data_0 is Ok {
                    assert(events[len - 2] == front[len - 2]);
                    assert(signs_after(start, cfg, events, len - 3));
                    assert(is_proof_of_possession(
                        after.1->Ask_0.draft.packets[2],
                        start,
                        cfg,
                        events,
                        after.0,
                        first_sequence(start) + 2,
                        len - 3,
                    ));
                }
            },
            GenerateStageView::MarshalVerify => {
                if after.1 is Ask {
                    lemma_proof_stays(packets, packets, start, cfg, events, before.0, after.0);
                }
            },
            GenerateStageView::Finish => {
                if proves_possession(start, cfg) {
                    let more = match after.1 {
                        StepView::Done(more) => more,
                        StepView::Ask(next, _) => next.draft.packets,
                        _ => packets,
                    };
                    lemma_proof_stays(packets, more, start, cfg, events, before.0, after.0);
                }
            },
            GenerateStageView::Transcript => {
                if proves_possession(start, cfg) {
                    let more = after.1->Done_0;
                    lemma_proof_stays(packets, more, start, cfg, events, before.0, after.0);
                }
            },
            _ => {},
        }
    }
}

/// A client that sends a certificate with a private key proves in the flight
/// that it has that key.  The CertificateVerify message, which follows the
/// certificate and the client's share, carries a signature with the key of the
/// chosen certificate over the messages of the handshake so far, under a scheme
/// chosen among the listed ones.
pub proof fn law_flight_proves_possession(
    start: StateView,
    cfg: HandshakeConfig,
    events: Seq<EventView>,
)
    requires
        is_generate_run(start, cfg, events),
        generate_run(start, cfg, events).1 is Done,
        proves_possession(start, cfg),
    ensures
        chosen_certificate(cfg, events) is Some,
        has_proof(
            generate_run(start, cfg, events).1->Done_0,
            start,
            cfg,
            events,
            generate_run(start, cfg, events).0,
        ),
{
    lemma_run_makes_proof(start, cfg, events);
    lemma_run_on_course(start, cfg, events.drop_last());
    assert(events.len() > 1);
    assert(events[0] == events.drop_last()[0]);
}

/// The hash of the session that was made during a run, where one was.
pub open spec fn session_hash(
    start: StateView,
    cfg: HandshakeConfig,
    events: Seq<EventView>,
) -> Option<Seq<u8>>
    decreases events.len(),
{
    if events.len() == 0 {
        None
    } else {
        let front = events.drop_last();
        match (generate_run(start, cfg, front).1, events.last()) {
            (StepView::Ask(_, ActionView::SessionHash { .. }), EventView::Data(Ok(hash))) => Some(
                hash,
            ),
            _ => session_hash(start, cfg, front),
        }
    }
}

/// Which master secret there is, by what the flight waits for.
spec fn is_secret_on_course(
    step: GenerateStep,
    start: StateView,
    cfg: HandshakeConfig,
    hash: Option<Seq<u8>>,
    written: Seq<u8>,
) -> bool {
    &&& start.cipher_suite is None || start.cipher_suite->0.initialized ==> step.0.master_secret
        == start.master_secret
    &&& match step.1 {
        StepView::Ask(progress, action) => {
            &&& action is SessionHash <==> (progress.stage is Initialize
                && progress.stage->Initialize_0 is SessionHash)
            &&& match progress.stage {
                GenerateStageView::Certificate => has_start_secret(step.0, start) && hash is None,
                GenerateStageView::ServerKeyExchange => has_start_secret(step.0, start) && hash
                    is None,
                GenerateStageView::KeyAgreement => has_start_secret(step.0, start) && hash is None,
                GenerateStageView::Handshake => has_start_secret(step.0, start) && hash is None,
                GenerateStageView::Number => has_start_secret(step.0, start) && hash is None,
                GenerateStageView::Marshal => has_start_secret(step.0, start) && hash is None,
                GenerateStageView::Initialize(inner) => if inner is SessionHash {
                    &&& has_start_secret(step.0, start) && hash is None
                    &&& start.extended_master_secret
                    &&& start.cipher_suite is Some && !start.cipher_suite->0.initialized
                    &&& action->SessionHash_epoch == cfg.initial_epoch
                    &&& action->additional == written
                } else {
                    has_master_secret(step.0, start, hash)
                },
                _ => has_master_secret(step.0, start, hash),
            }
        },
        StepView::Done(_) => has_master_secret(step.0, start, hash),
        StepView::Fail(_) => true,
    }
}

/// Tells whether neither the master secret nor the suite has been touched.
spec fn has_start_secret(state: StateView, start: StateView) -> bool {
    state.master_secret == start.master_secret && state.cipher_suite == start.cipher_suite
}

/// A step of a run keeps the master secret on course.
#[verifier::rlimit(40)]
proof fn lemma_step_derives_secret(
    step: GenerateStep,
    event: EventView,
    start: StateView,
    cfg: HandshakeConfig,
    certificate: Option<CertificateView>,
    hash: Option<Seq<u8>>,
    written: Seq<u8>,
)
    requires
        is_on_course(step, start, cfg, certificate, written),
        is_secret_on_course(step, start, cfg, hash, written),
        step.1 is Ask,
        step.1->Ask_0.awaits(event),
        step.1->Ask_0.can_resume(step.0, cfg),
    ensures
        is_secret_on_course(
            generate_resume(step.1->Ask_0, event, step.0, cfg),
            start,
            cfg,
            match (step.1->Ask_1, event) {
                (ActionView::SessionHash { .. }, EventView::Data(Ok(found))) => Some(found),
                _ => hash,
            },
            match (step.1->Ask_1, event) {
                (ActionView::MarshalHandshake { .. }, EventView::Data(Ok(raw))) => written + raw,
                _ => written,
            },
        ),
{
}

/// Every run derives the master secret on its way.
proof fn lemma_run_derives_secret(start: StateView, cfg: HandshakeConfig, events: Seq<EventView>)
    requires
        is_generate_run(start, cfg, events),
    ensures
        is_secret_on_course(
            generate_run(start, cfg, events),
            start,
            cfg,
            session_hash(start, cfg, events),
            written_bytes(start, cfg, events),
        ),
    decreases events.len(),
{
    if events.len() > 0 {
        let front = events.drop_last();
        let before = generate_run(start, cfg, front);
        lemma_run_on_course(start, cfg, front);
        lemma_run_derives_secret(start, cfg, front);
        assert(before.1->Ask_0.awaits(events.last()));
        lemma_step_derives_secret(
            before,
            events.last(),
            start,
            cfg,
            chosen_certificate(cfg, front),
            session_hash(start, cfg, front),
            written_bytes(start, cfg, front),
        );
    }
}

/// A flight that is made leaves the master secret that the handshake gives.
pub proof fn law_flight_master_secret(
    start: StateView,
    cfg: HandshakeConfig,
    events: Seq<EventView>,
)
    requires
        is_generate_run(start, cfg, events),
        generate_run(start, cfg, events).1 is Done,
    ensures
        has_master_secret(
            generate_run(start, cfg, events).0,
            start,
            session_hash(start, cfg, events),
        ),
{
    lemma_run_derives_secret(start, cfg, events);
}

/// The keys are asked for once the state holds the master secret that the
/// handshake gives.
pub proof fn law_secret_before_keys(start: StateView, cfg: HandshakeConfig, events: Seq<EventView>)
    requires
        is_generate_run(start, cfg, events),
        generate_run(start, cfg, events).1 is Ask,
        generate_run(start, cfg, events).1->Ask_1 is InitCipherSuite,
    ensures
        has_master_secret(
            generate_run(start, cfg, events).0,
            start,
            session_hash(start, cfg, events),
        ),
{
    lemma_run_derives_secret(start, cfg, events);
    lemma_run_on_course(start, cfg, events);
    let outcome = EventView::Outcome(Ok(()));
    assert(outcome.answers(generate_run(start, cfg, events).1->Ask_1));
    assert(generate_run(start, cfg, events).1->Ask_0.awaits(outcome));
}

/// The session hash is asked for over the initial epoch and the messages that
/// were written for this flight.
pub proof fn law_session_hash_covers_flight(
    start: StateView,
    cfg: HandshakeConfig,
    events: Seq<EventView>,
)
    requires
        is_generate_run(start, cfg, events),
        generate_run(start, cfg, events).1 is Ask,
        generate_run(start, cfg, events).1->Ask_1 is SessionHash,
    ensures
        generate_run(start, cfg, events).1->Ask_1->SessionHash_epoch == cfg.initial_epoch,
        generate_run(start, cfg, events).1->Ask_1->additional == written_bytes(start, cfg, events),
{
    lemma_run_derives_secret(start, cfg, events);
}

/// The server's answer is accepted if and only if its Finished was found and
/// vouches for the messages of the handshake.
pub proof fn law_parse_accepts(
    messages: Seq<PulledMessageView>,
    plain_text: Seq<u8>,
    state: StateView,
    cfg: HandshakeConfig,
)
    ensures
        ({
            let second = parse_resume(
                ParseProgressView::Finished,
                EventView::Messages(Ok(messages)),
                state,
                cfg,
            );
            let accepted = second matches StepView::Ask(progress, _) && parse_resume(
                progress,
                EventView::Merged(plain_text),
                state,
                cfg,
            ) is Done;
            let finished = message_of_type(messages, HandshakeType::Finished);
            accepted == (finished matches Some(HandshakeMessageView::Finished { verify_data })
                && vouches_for(verify_data, plain_text, state))
        }),
{
}

/// Whatever a step on the server's answer asks for, the next one takes exactly
/// the answers to that.
pub proof fn law_parse_takes_answers(
    messages: Result<Seq<PulledMessageView>, Error>,
    state: StateView,
    cfg: HandshakeConfig,
    event: EventView,
)
    ensures
        parse_begin(cfg) matches StepView::Ask(progress, action) && (progress.awaits(event)
            <==> event.answers(action)),
        parse_resume(
            ParseProgressView::Finished,
            EventView::Messages(messages),
            state,
            cfg,
        ) matches StepView::Ask(progress, action) ==> (progress.awaits(event) <==> event.answers(
            action,
        )),
{
}

/// The verify data that the server derives from the same master secret and the
/// same messages are accepted, and no others are.
pub proof fn law_server_finished_is_unique(
    verify_data: Seq<u8>,
    plain_text: Seq<u8>,
    state: StateView,
)
    requires
        state.cipher_suite is Some,
    ensures
        vouches_for(verify_data, plain_text, state) <==> verify_data == server_verify_data(
            state.master_secret,
            plain_text,
            state.cipher_suite->0.spec_hash_func(),
        ),
        vouches_for(verify_data, plain_text, state) ==> verify_data.len() == VERIFY_DATA_LENGTH,
{
}

} // verus!

use ashe_worker::audio::{
    AudioSetupError, ResamplePoint, Resampler, SampleFormat, check_input, pcm_bytes,
};
use ashe_worker::voice::{
    FrameAssembler, PeerState, SessionAnswer, SignalingError, VoiceAction, VoiceError, VoiceInput,
    VoicePhase, VoiceRun, judge_session, session_route, valid_session_id,
};
use ashe_worker::voice_audio::{MAX_BUFFER_SAMPLES, PlaybackBuffer, START_BUFFER_SAMPLES};

const SESSION: &str = "0af76519-16cd-43dd-8448-eb211c80319c";

fn answer(session_id: &str) -> Option<SessionAnswer> {
    Some(SessionAnswer {
        session_id: session_id.to_string(),
        answer_sdp: "v=0".to_string(),
    })
}

#[test]
fn session_ids_are_hyphenated_hex() {
    assert!(valid_session_id(SESSION));
    assert!(valid_session_id(&SESSION.to_uppercase()));
    assert!(!valid_session_id(""));
    assert!(!valid_session_id(&SESSION[1..]));
    assert!(!valid_session_id(&SESSION.replace('-', "0")));
    assert!(!valid_session_id(&SESSION.replace('a', "g")));
    assert_eq!(
        session_route("abc"),
        "/v1/assistant/sessions/abc"
    );
}

#[test]
fn signaling_answers_are_judged() {
    assert_eq!(judge_session(201, answer(SESSION)).unwrap().answer_sdp, "v=0");
    for (status, body, problem) in [
        (409, answer(SESSION), SignalingError::AlreadyActive),
        (500, answer(SESSION), SignalingError::HttpStatus(500)),
        (200, answer(SESSION), SignalingError::HttpStatus(200)),
        (201, None, SignalingError::InvalidAnswer),
        (201, answer("../x"), SignalingError::InvalidSessionId),
    ] {
        assert_eq!(judge_session(status, body), Err(problem));
    }
}

fn drive(run: &mut VoiceRun, inputs: Vec<VoiceInput>) -> VoiceAction {
    let mut last = VoiceAction::Wait;
    for input in inputs {
        last = run.step(input);
    }
    last
}

fn created() -> VoiceInput {
    VoiceInput::SessionCreated {
        session_id: SESSION.to_string(),
    }
}

#[test]
fn a_call_runs_and_cleans_up() {
    let (mut run, action) = VoiceRun::start(false);
    assert_eq!(action, VoiceAction::MakeOffer);
    assert_eq!(run.step(VoiceInput::OfferMade), VoiceAction::WaitForCandidates);
    assert_eq!(run.step(VoiceInput::Gathered), VoiceAction::ReadDescription);
    assert_eq!(run.step(VoiceInput::Described), VoiceAction::CreateSession);
    assert_eq!(run.step(created()), VoiceAction::ApplyAnswer);
    assert_eq!(
        run.step(VoiceInput::AnswerApplied),
        VoiceAction::WaitForConnection
    );
    assert_eq!(
        run.step(VoiceInput::Peer(PeerState::Other)),
        VoiceAction::Wait
    );
    assert_eq!(
        run.step(VoiceInput::Peer(PeerState::Connected)),
        VoiceAction::StartAudio
    );
    assert_eq!(run.step(VoiceInput::AudioStarted), VoiceAction::Stream);
    assert_eq!(run.step(VoiceInput::StopRequested), VoiceAction::ClosePeer);
    assert_eq!(
        run.step(VoiceInput::PeerClosed),
        VoiceAction::DeleteSession {
            session_id: SESSION.to_string()
        }
    );
    assert_eq!(
        run.step(VoiceInput::SessionDeleted),
        VoiceAction::Finish(None)
    );
    assert_eq!(run.phase, VoicePhase::Done);
}

#[test]
fn a_stop_during_signaling_still_deletes_the_session() {
    let (mut run, _) = VoiceRun::start(false);
    let action = drive(
        &mut run,
        vec![
            VoiceInput::OfferMade,
            VoiceInput::Gathered,
            VoiceInput::Described,
            VoiceInput::StopRequested,
        ],
    );
    assert_eq!(action, VoiceAction::Wait);
    assert_eq!(run.step(created()), VoiceAction::ClosePeer);
    assert_eq!(
        run.step(VoiceInput::PeerClosed),
        VoiceAction::DeleteSession {
            session_id: SESSION.to_string()
        }
    );
}

#[test]
fn a_stop_is_never_overtaken() {
    let course = || {
        vec![
            VoiceInput::OfferMade,
            VoiceInput::Gathered,
            VoiceInput::Described,
            created(),
            VoiceInput::AnswerApplied,
            VoiceInput::Peer(PeerState::Connected),
            VoiceInput::AudioStarted,
        ]
    };
    for stop_at in 0..=course().len() {
        let (mut run, _) = VoiceRun::start(false);
        for (index, input) in course().into_iter().enumerate() {
            if index == stop_at {
                run.step(VoiceInput::StopRequested);
            }
            let action = run.step(input);
            if index >= stop_at {
                assert_ne!(action, VoiceAction::Stream);
                assert_ne!(action, VoiceAction::StartAudio);
                assert_ne!(action, VoiceAction::WaitForConnection);
                assert_ne!(action, VoiceAction::WaitForCandidates);
            }
        }
        run.step(VoiceInput::StopRequested);
        assert_eq!(run.phase, VoicePhase::ClosingPeer);
        assert_eq!(run.failure, None);
    }
    let (mut run, _) = VoiceRun::start(false);
    run.step(VoiceInput::StopRequested);
    assert_eq!(run.step(VoiceInput::OfferMade), VoiceAction::ClosePeer);
}

#[test]
fn an_early_stop_ends_without_a_session() {
    let (mut run, action) = VoiceRun::start(true);
    assert_eq!(action, VoiceAction::ClosePeer);
    assert_eq!(run.step(VoiceInput::PeerClosed), VoiceAction::Finish(None));
}

#[test]
fn failures_are_reported_at_the_end() {
    let ready = || vec![VoiceInput::OfferMade, VoiceInput::Gathered, VoiceInput::Described];
    let refused = VoiceInput::SessionRefused(SignalingError::AlreadyActive);
    let mut cases = vec![
        (vec![VoiceInput::OfferFailed], VoiceError::OfferFailed),
        (
            vec![VoiceInput::OfferMade, VoiceInput::GatherTimedOut],
            VoiceError::GatherTimedOut,
        ),
        (
            vec![VoiceInput::OfferMade, VoiceInput::GatherStopped],
            VoiceError::GatherStopped,
        ),
        (
            vec![
                VoiceInput::OfferMade,
                VoiceInput::Gathered,
                VoiceInput::NotDescribed,
            ],
            VoiceError::NoLocalDescription,
        ),
    ];
    let mut inputs = ready();
    inputs.push(refused);
    cases.push((inputs, VoiceError::Signaling(SignalingError::AlreadyActive)));
    for (inputs, failure) in cases {
        let (mut run, _) = VoiceRun::start(false);
        assert_eq!(drive(&mut run, inputs), VoiceAction::ClosePeer);
        assert_eq!(
            run.step(VoiceInput::PeerClosed),
            VoiceAction::Finish(Some(failure))
        );
        assert!(!failure.message().is_empty());
    }
}

#[test]
fn connected_calls_fail_with_their_peer() {
    for (input, failure) in [
        (
            VoiceInput::Peer(PeerState::Closed),
            VoiceError::ConnectionClosed,
        ),
        (VoiceInput::MicrophoneStopped, VoiceError::MicrophoneStopped),
        (VoiceInput::SendFailed, VoiceError::SendFailed),
    ] {
        let (mut run, _) = VoiceRun::start(false);
        drive(
            &mut run,
            vec![
                VoiceInput::OfferMade,
                VoiceInput::Gathered,
                VoiceInput::Described,
                created(),
                VoiceInput::AnswerApplied,
                VoiceInput::Peer(PeerState::Connected),
                VoiceInput::AudioStarted,
                input,
                VoiceInput::PeerClosed,
            ],
        );
        assert_eq!(
            run.step(VoiceInput::SessionDeleted),
            VoiceAction::Finish(Some(failure))
        );
    }
}

#[test]
fn packets_hold_twenty_milliseconds() {
    let mut assembler = FrameAssembler::new();
    let samples: Vec<i16> = (0..2_000).map(|i| (i * 31 % 700 - 350) as i16).collect();
    let bytes = pcm_bytes(&samples);
    assert_eq!(bytes[..2], samples[0].to_le_bytes());
    let mut frames = Vec::new();
    for chunk in bytes.chunks(500) {
        frames.extend(assembler.push(chunk));
    }
    assert_eq!(frames.len(), 2);
    assert_eq!(frames.concat(), samples[..1_920]);
}

#[test]
fn samples_are_written_little_end_first() {
    let samples = [0i16, 1, -1, i16::MIN, i16::MAX, 0x1234];
    let expected: Vec<u8> = samples.iter().flat_map(|s| s.to_le_bytes()).collect();
    assert_eq!(pcm_bytes(&samples), expected);
}

#[test]
fn playback_waits_for_a_start_buffer() {
    let mut buffer = PlaybackBuffer::new();
    buffer.push(&vec![1; START_BUFFER_SAMPLES - 1]);
    assert_eq!(buffer.next(48_000), None);
    buffer.push(&[2]);
    let point = buffer.next(48_000).unwrap();
    assert_eq!((point.current, point.following, point.phase), (1, 1, 0));
}

#[test]
fn playback_steps_by_the_output_rate() {
    let mut buffer = PlaybackBuffer::new();
    let samples: Vec<u32> = (0..1_000).collect();
    buffer.push(&samples);
    let mut seen = Vec::new();
    for _ in 0..6 {
        let point = buffer.next(96_000).unwrap();
        seen.push((point.current, point.phase));
    }
    assert_eq!(
        seen,
        [(0, 0), (0, 48_000), (1, 0), (1, 48_000), (2, 0), (2, 48_000)]
    );
    let mut slow = PlaybackBuffer::new();
    slow.push(&samples);
    let firsts: Vec<u32> = (0..4).map(|_| slow.next(24_000).unwrap().current).collect();
    assert_eq!(firsts, [0, 2, 4, 6]);
}

#[test]
fn playback_starts_again_once_it_ran_dry() {
    let mut buffer = PlaybackBuffer::new();
    buffer.push(&vec![7; START_BUFFER_SAMPLES]);
    let mut played = 0;
    while buffer.next(48_000).is_some() {
        played += 1;
    }
    assert_eq!(played, START_BUFFER_SAMPLES - 1);
    buffer.push(&[1, 2, 3]);
    assert_eq!(buffer.next(48_000), None);
}

#[test]
fn playback_keeps_the_newest() {
    let mut buffer = PlaybackBuffer::new();
    let samples: Vec<u32> = (0..MAX_BUFFER_SAMPLES as u32 + 5).collect();
    buffer.push(&samples);
    assert_eq!(buffer.next(48_000).unwrap().current, 5);
}

#[test]
fn devices_are_checked_before_capture() {
    assert_eq!(
        check_input(0, 48_000, 0, SampleFormat::Other("I24".to_string())),
        Err(AudioSetupError::ZeroChannels)
    );
    assert_eq!(
        check_input(1, 48_000, 0, SampleFormat::Other("I24".to_string())),
        Err(AudioSetupError::ZeroOutputRate)
    );
    assert_eq!(
        check_input(1, 48_000, 48_000, SampleFormat::Other("I24".to_string())),
        Err(AudioSetupError::UnsupportedFormat("I24".to_string()))
    );
    assert_eq!(
        AudioSetupError::UnsupportedFormat("I24".to_string()).message(),
        "Unsupported sample format: I24"
    );
    assert_eq!(check_input(2, 44_100, 48_000, SampleFormat::I16), Ok(true));
    assert_eq!(check_input(2, 48_000, 48_000, SampleFormat::F32), Ok(false));
    assert_eq!(
        AudioSetupError::ZeroChannels.message(),
        "input device reported zero channels"
    );
}

#[test]
fn resampling_reads_exact_points() {
    let mut resampler = Resampler::new(2, 4);
    let (points, keep) = resampler.resample(2);
    let expected: Vec<ResamplePoint> = [(0, 0), (0, 2), (1, 0), (1, 2)]
        .into_iter()
        .map(|(index, numerator)| ResamplePoint { index, numerator })
        .collect();
    assert_eq!(points, expected);
    assert_eq!(keep, 2);
    let mut down = Resampler::new(3, 1);
    let (points, keep) = down.resample(4);
    assert_eq!(points.len(), 2);
    assert_eq!((points[0].index, points[1].index), (0, 3));
    assert_eq!(keep, 4);
    let (points, _) = down.resample(4);
    assert_eq!(points[0].index, 2);
}

#[test]
fn resampling_does_not_depend_on_the_blocks() {
    let total = 1_000u32;
    let absolute = |blocks: &[u32]| {
        let mut resampler = Resampler::new(44_100, 48_000);
        let mut offset = 0usize;
        let mut out = Vec::new();
        for count in blocks {
            let (points, keep) = resampler.resample(*count);
            out.extend(points.iter().map(|p| (offset + p.index, p.numerator)));
            offset += keep;
        }
        out
    };
    let mut blocks = vec![7u32; 142];
    blocks.push(6);
    assert_eq!(blocks.iter().sum::<u32>(), total);
    assert_eq!(absolute(&blocks), absolute(&[total]));
}

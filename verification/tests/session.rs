use chat_label_printer::exchange::SessionError;
use chat_label_printer::packet::NiimbotPacket;
use chat_label_printer::request::Request;
use chat_label_printer::session::{
    get_print_status, parse_print_status, poll_verdict, Operation, Outcome, PrintJob, PrintRun,
    PrintStatus, SessionState, Stage,
};

const DARK: u32 = 0;

fn job(width: usize, height: usize, quantity: u8) -> PrintJob {
    PrintJob::new(&vec![DARK; width * height], width, height, quantity, 1, 5).unwrap()
}

fn status(page: u16) -> Outcome {
    let bytes = page.to_be_bytes();
    Outcome::Exchanged(Ok(Some(NiimbotPacket::new(0xB3, vec![bytes[0], bytes[1], 50, 60]))))
}

fn pending_request(run: &PrintRun) -> (u8, Vec<u8>, Option<u8>) {
    match run.pending() {
        Operation::Exchange(Request { code, payload, response_offset }) => (code, payload, response_offset),
        other => panic!("no request pending: {:?}", other),
    }
}

#[test]
fn job_is_refused_for_images_that_cannot_be_printed() {
    assert!(PrintJob::new(&[DARK; 15], 8, 2, 1, 1, 5).is_none());
    assert!(PrintJob::new(&[DARK; 16], 8, 2, 1, 1, 5).is_some());
    assert!(PrintJob::new(&vec![DARK; 1992], 1992, 1, 1, 1, 5).is_some());
    assert!(PrintJob::new(&vec![DARK; 2000], 2000, 1, 1, 1, 5).is_none());
    assert!(PrintJob::new(&[], 0, 65535, 1, 1, 5).is_some());
    assert!(PrintJob::new(&[], 0, 65536, 1, 1, 5).is_none());
    assert!(PrintJob::new(&[], 65536, 0, 1, 1, 5).is_none());
    assert!(PrintJob::new(&[], 0, 0, 1, 1, 5).is_some());
}

#[test]
fn job_keeps_its_measures() {
    let job = PrintJob::new(&vec![DARK; 16 * 3], 16, 3, 2, 1, 5).unwrap();
    assert_eq!((job.width(), job.height(), job.quantity()), (16, 3, 2));
    assert_eq!(job.script_len(), 9);
}

#[test]
fn script_runs_in_order_and_then_polls() {
    let mut run = PrintRun::new(PrintJob::new(&vec![DARK; 16 * 2], 16, 2, 3, 2, 4).unwrap());
    let expected: Vec<(u8, Vec<u8>, Option<u8>)> = vec![
        (0x23, vec![2], Some(16)),
        (0x21, vec![4], Some(16)),
        (0x01, vec![0, 1, 0, 0, 0, 0, 0], Some(1)),
        (0x03, vec![1], Some(1)),
        (0x13, vec![0, 2, 0, 16, 0, 3], None),
        (0x85, vec![0, 0, 8, 8, 0, 1, 0xFF, 0xFF], None),
        (0x85, vec![0, 1, 8, 8, 0, 1, 0xFF, 0xFF], None),
        (0xE3, vec![1], Some(1)),
    ];
    let states = [
        SessionState::Idle,
        SessionState::Idle,
        SessionState::Idle,
        SessionState::Printing,
        SessionState::PagePrinting,
        SessionState::PagePrinting,
        SessionState::PagePrinting,
        SessionState::PagePrinting,
    ];
    for (place, wanted) in expected.iter().enumerate() {
        assert_eq!(run.stage(), Stage::Stepping(place));
        assert_eq!(run.state(), states[place]);
        assert_eq!(&pending_request(&run), wanted);
        run.record(Outcome::Exchanged(Ok(None)));
    }
    assert_eq!(run.stage(), Stage::Polling);
    assert_eq!(run.state(), SessionState::AwaitingCompletion);
    assert_eq!(pending_request(&run), (0xA3, vec![1], Some(16)));
    run.record(status(1));
    assert_eq!(run.stage(), Stage::Resting);
    assert!(matches!(run.pending(), Operation::Pause(100)));
    run.record(Outcome::Paused);
    assert_eq!(pending_request(&run), (0xA3, vec![1], Some(16)));
    run.record(status(3));
    assert_eq!(run.stage(), Stage::Finished);
    assert_eq!(run.state(), SessionState::Idle);
    assert!(matches!(run.pending(), Operation::Complete(Ok(()))));
    run.record(Outcome::Exchanged(Err(SessionError::NoResponse)));
    assert_eq!(run.stage(), Stage::Finished);
}

#[test]
fn failure_of_any_script_request_ends_the_job_at_once() {
    for failing in 0..7 {
        let mut run = PrintRun::new(job(8, 1, 1));
        for _ in 0..failing {
            run.record(Outcome::Exchanged(Ok(None)));
        }
        run.record(Outcome::Exchanged(Err(SessionError::NoResponse)));
        assert_eq!(run.stage(), Stage::Failed(SessionError::NoResponse), "request {failing}");
        assert!(matches!(run.pending(), Operation::Complete(Err(SessionError::NoResponse))));
        assert_eq!(run.stage().result(), Some(Err(SessionError::NoResponse)));
    }
    let mut run = PrintRun::new(job(8, 1, 1));
    run.record(Outcome::Exchanged(Err(SessionError::TransportFailed)));
    assert_eq!(run.stage(), Stage::Failed(SessionError::TransportFailed));
}

#[test]
fn failed_status_poll_counts_as_completion() {
    let mut run = PrintRun::new(job(8, 0, 1));
    for _ in 0..6 {
        run.record(Outcome::Exchanged(Ok(None)));
    }
    assert_eq!(run.stage(), Stage::Polling);
    run.record(Outcome::Exchanged(Err(SessionError::NoResponse)));
    assert_eq!(run.stage(), Stage::Finished);
    assert_eq!(run.stage().result(), Some(Ok(())));
}

#[test]
fn short_status_response_fails_the_job() {
    let mut run = PrintRun::new(job(8, 0, 1));
    for _ in 0..6 {
        run.record(Outcome::Exchanged(Ok(None)));
    }
    run.record(Outcome::Exchanged(Ok(Some(NiimbotPacket::new(0xB3, vec![0, 1, 100])))));
    assert_eq!(run.stage(), Stage::Failed(SessionError::InvalidResponse));
}

#[test]
fn outcomes_that_do_not_fit_change_nothing() {
    let mut run = PrintRun::new(job(8, 0, 1));
    run.record(Outcome::Paused);
    assert_eq!(run.stage(), Stage::Stepping(0));
    for _ in 0..6 {
        run.record(Outcome::Exchanged(Ok(None)));
    }
    run.record(Outcome::Paused);
    assert_eq!(run.stage(), Stage::Polling);
    run.record(status(0));
    assert_eq!(run.stage(), Stage::Resting);
    run.record(status(1));
    assert_eq!(run.stage(), Stage::Resting);
    assert_eq!(run.stage().result(), None);
}

#[test]
fn poll_verdicts() {
    assert_eq!(poll_verdict(Err(SessionError::NoResponse), 1), Stage::Finished);
    assert_eq!(poll_verdict(Err(SessionError::TransportFailed), 1), Stage::Finished);
    assert_eq!(poll_verdict(Ok(None), 1), Stage::Failed(SessionError::InvalidResponse));
    assert_eq!(poll_verdict(Ok(Some(NiimbotPacket::new(0xB3, vec![0, 1, 0, 0]))), 1), Stage::Finished);
    assert_eq!(poll_verdict(Ok(Some(NiimbotPacket::new(0xB3, vec![0, 0, 0, 0]))), 1), Stage::Resting);
    assert_eq!(poll_verdict(Ok(Some(NiimbotPacket::new(0xB3, vec![1, 1, 0, 0]))), 1), Stage::Resting);
    assert_eq!(poll_verdict(Ok(Some(NiimbotPacket::new(0xB3, vec![0, 2, 0, 0, 9, 9]))), 2), Stage::Finished);
}

#[test]
fn status_is_read_big_endian() {
    assert_eq!(
        parse_print_status(&vec![0x01, 0x02, 30, 40]),
        Ok(PrintStatus { page: 258, progress1: 30, progress2: 40 })
    );
    assert_eq!(
        parse_print_status(&vec![0xFF, 0xFF, 0, 255, 1, 2, 3]),
        Ok(PrintStatus { page: 65535, progress1: 0, progress2: 255 })
    );
    assert_eq!(parse_print_status(&vec![0, 1, 2]), Err(SessionError::InvalidResponse));
    assert_eq!(parse_print_status(&vec![]), Err(SessionError::InvalidResponse));
}

#[test]
fn failed_status_poll_hands_its_error_on() {
    assert_eq!(get_print_status(Err(SessionError::NoResponse)), Err(SessionError::NoResponse));
    assert_eq!(
        get_print_status(Err(SessionError::TransportFailed)),
        Err(SessionError::TransportFailed)
    );
    assert_eq!(
        get_print_status(Ok(NiimbotPacket::new(0xB3, vec![0, 2, 10, 20]))),
        Ok(PrintStatus { page: 2, progress1: 10, progress2: 20 })
    );
    assert_eq!(
        get_print_status(Ok(NiimbotPacket::new(0xB3, vec![0, 2]))),
        Err(SessionError::InvalidResponse)
    );
}

#[test]
fn silence_means_done_for_the_job_only() {
    assert_eq!(get_print_status(Err(SessionError::NoResponse)), Err(SessionError::NoResponse));
    assert_eq!(poll_verdict(Err(SessionError::NoResponse), 3), Stage::Finished);
}

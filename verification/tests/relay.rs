use slmodem_asterisk_bridge::codec::{decode_ulaw, encode_ulaw};
use slmodem_asterisk_bridge::relay::{
    MediaEvent, RxReport, RxStep, SlToWs, TxReport, TxStep, WsToSl, RELAY_BUF_BYTES,
    RELAY_STATS_INTERVAL_MS,
};

fn sent(direction: &mut SlToWs, chunk: &[u8]) -> Vec<u8> {
    match direction.on_read(chunk) {
        TxStep::Send(ulaw) => ulaw,
        TxStep::Skip => Vec::new(),
        TxStep::Close => panic!("not at the end"),
    }
}

#[test]
fn stream_is_sent_however_it_is_cut() {
    let stream: Vec<u8> = (0..200u8).collect();
    for size in 1..50 {
        let mut direction = SlToWs::new();
        let mut all = Vec::new();
        for chunk in stream.chunks(size) {
            assert!(direction.can_count(chunk.len()));
            all.extend(sent(&mut direction, chunk));
        }
        assert_eq!(all, encode_ulaw(&stream));
        assert_eq!(direction.total(), 100);
    }
}

#[test]
fn end_of_stream_closes() {
    let mut direction = SlToWs::new();
    assert!(matches!(direction.on_read(&[]), TxStep::Close));
    assert_eq!(direction.total(), 0);
}

#[test]
fn half_a_sample_is_skipped() {
    let mut direction = SlToWs::new();
    assert!(matches!(direction.on_read(&[0xe8]), TxStep::Skip));
    assert_eq!(sent(&mut direction, &[0x03]), vec![0xce]);
    assert_eq!(direction.total(), 1);
}

#[test]
fn sent_audio_is_reported_once_per_interval() {
    let mut direction = SlToWs::new();
    sent(&mut direction, &[0; 320]);
    assert_eq!(direction.on_sent(20), None);
    assert_eq!(direction.on_sent(RELAY_STATS_INTERVAL_MS - 1), None);
    sent(&mut direction, &[0; 320]);
    assert_eq!(
        direction.on_sent(2000),
        Some(TxReport {
            interval_bytes: 320,
            interval_frames: 2,
            interval_ms: 2000,
            total_bytes: 320,
        })
    );
    sent(&mut direction, &[0; 320]);
    assert_eq!(
        direction.on_sent(2500),
        Some(TxReport {
            interval_bytes: 160,
            interval_frames: 1,
            interval_ms: 2500,
            total_bytes: 480,
        })
    );
    assert_eq!(direction.total(), 480);
    assert_eq!(RELAY_BUF_BYTES, 2048);
}

#[test]
fn received_audio_is_written_as_slin() {
    let mut direction = WsToSl::new();
    assert!(direction.can_count(2));
    match direction.on_frame(MediaEvent::Binary(&[0xce, 0x4e])) {
        RxStep::Write(slin) => assert_eq!(slin, decode_ulaw(&[0xce, 0x4e])),
        other => panic!("unexpected step {other:?}"),
    }
    assert_eq!(direction.total(), 2);
}

#[test]
fn received_audio_is_reported_with_frame_sizes() {
    let mut direction = WsToSl::new();
    direction.on_frame(MediaEvent::Binary(&[0xff; 160]));
    assert_eq!(direction.on_written(1999), None);
    direction.on_frame(MediaEvent::Binary(&[0xff; 80]));
    direction.on_frame(MediaEvent::Binary(&[0xff; 120]));
    assert_eq!(
        direction.on_written(2100),
        Some(RxReport {
            interval_bytes: 360,
            interval_frames: 3,
            interval_ms: 2100,
            total_bytes: 360,
            min_frame_bytes: 80,
            max_frame_bytes: 160,
        })
    );
    assert_eq!(
        direction.on_written(2000),
        Some(RxReport {
            interval_bytes: 0,
            interval_frames: 0,
            interval_ms: 2000,
            total_bytes: 360,
            min_frame_bytes: usize::MAX,
            max_frame_bytes: 0,
        })
    );
}

#[test]
fn other_frames_are_passed_over() {
    let mut direction = WsToSl::new();
    assert!(matches!(
        direction.on_frame(MediaEvent::Text("MEDIA_START connection_id:1 format:ulaw")),
        RxStep::LogMediaStart
    ));
    assert!(matches!(
        direction.on_frame(MediaEvent::Text("MEDIA_STAR")),
        RxStep::WarnText
    ));
    assert!(matches!(
        direction.on_frame(MediaEvent::Control),
        RxStep::Ignore
    ));
    assert!(matches!(
        direction.on_frame(MediaEvent::Other),
        RxStep::LogUnknown
    ));
    assert_eq!(direction.total(), 0);
}

#[test]
fn close_and_end_stop() {
    let mut direction = WsToSl::new();
    assert!(matches!(
        direction.on_frame(MediaEvent::Close),
        RxStep::Stop
    ));
    assert!(matches!(direction.on_frame(MediaEvent::End), RxStep::Stop));
}

#[test]
fn whole_run_sends_half_of_what_was_read() {
    let mut direction = SlToWs::new();
    let mut reported = 0;
    for round in 1..=9u128 {
        sent(&mut direction, &[7; 33]);
        if let Some(report) = direction.on_sent(round * 500) {
            reported += report.interval_bytes;
        }
    }
    assert!(matches!(direction.on_read(&[]), TxStep::Close));
    assert_eq!(direction.total(), 9 * 33 / 2);
    assert_eq!(reported, 148);
}

#[test]
fn whole_run_counts_only_audio() {
    let mut direction = WsToSl::new();
    let mut written = Vec::new();
    for event in [
        MediaEvent::Text("MEDIA_START"),
        MediaEvent::Binary(&[0xce, 0x4e]),
        MediaEvent::Control,
        MediaEvent::Other,
        MediaEvent::Binary(&[0xff]),
        MediaEvent::Close,
    ] {
        if let RxStep::Write(slin) = direction.on_frame(event) {
            written.extend(slin);
        }
    }
    assert_eq!(written, decode_ulaw(&[0xce, 0x4e, 0xff]));
    assert_eq!(direction.total(), 3);
    let report = direction.on_written(2000).unwrap();
    assert_eq!(report.interval_bytes, 3);
    assert_eq!(report.interval_frames, 2);
}

use framepipe::EffectsExt;
use framepipe::Error;
use framepipe::FrameSource;
use framepipe::FrameStream;
use framepipe::IterFrame;
use framepipe::MemoryFrameSink;
use framepipe::MemoryFrameSource;
use framepipe::PixelFormat;

#[test]
fn source_cap_ends_the_stream_with_bytes_left() {
    // 1x1 frames of 3 bytes; 6 whole frames in the stream, cap 5.
    let mut data: Vec<u8> = Vec::new();
    for k in 0..18u8 {
        data.push(k);
    }
    let mut src = MemoryFrameSource::new(data, 1, 1, PixelFormat::Rgb24, 5).unwrap();
    for k in 0..5u8 {
        let frame = src.read_frame().unwrap().unwrap();
        assert_eq!(frame, vec![3 * k, 3 * k + 1, 3 * k + 2]);
    }
    assert_eq!(src.frames_emitted(), 5);
    // The 6th whole frame stays unread: the cap alone ends the stream.
    assert!(src.read_frame().unwrap().is_none());
    assert!(src.read_frame().unwrap().is_none());
}

#[test]
fn truncated_stream_fails_on_the_third_read() {
    // 2x1 frames of 6 bytes; the stream closes after 2.5 frames' bytes.
    let data: Vec<u8> = vec![0, 1, 2, 3, 4, 5, 6, 7, 8, 9, 10, 11, 12, 13, 14];
    let mut src = MemoryFrameSource::new(data, 2, 1, PixelFormat::Rgb24, 10).unwrap();
    assert_eq!(src.read_frame().unwrap().unwrap(), vec![0, 1, 2, 3, 4, 5]);
    assert_eq!(src.read_frame().unwrap().unwrap(), vec![6, 7, 8, 9, 10, 11]);
    let r = src.read_frame();
    assert!(matches!(r, Err(Error::TruncatedStream)));
    // The failure repeats; no partial frame is ever handed out.
    assert!(matches!(src.read_frame(), Err(Error::TruncatedStream)));
}

#[test]
fn source_refuses_empty_frame_shapes() {
    assert!(matches!(
        MemoryFrameSource::new(vec![], 0, 4, PixelFormat::Rgb24, 1),
        Err(Error::SizeMismatch)
    ));
    assert!(matches!(
        FrameSource::open(4, 0, PixelFormat::Rgb24, 1),
        Err(Error::SizeMismatch)
    ));
}

#[test]
fn source_protocol_demand_and_supply() {
    let mut proto = FrameSource::open(2, 2, PixelFormat::Rgb24, 2).unwrap();
    assert_eq!(proto.frame_cap(), 2);
    assert_eq!(proto.width(), 2);
    assert_eq!(proto.height(), 2);
    assert_eq!(proto.format(), PixelFormat::Rgb24);
    assert!(!proto.exhausted());
    assert_eq!(proto.demand(), Some(12));
    let frame = proto.supply(Some(vec![1; 12])).unwrap();
    assert_eq!(frame.len(), 12);
    assert_eq!(proto.frames_emitted(), 1);
    assert!(matches!(proto.supply(None), Err(Error::TruncatedStream)));
    assert_eq!(proto.frames_emitted(), 1);
    let _ = proto.supply(Some(vec![2; 12])).unwrap();
    assert!(proto.exhausted());
    assert_eq!(proto.demand(), None);
}

fn three_rgb_frames_2x2() -> MemoryFrameSource {
    // Three 2x2 frames; the top-left pixels are (200,100,50), (10,20,30)
    // and (0,0,255).
    let mut data: Vec<u8> = Vec::new();
    data.extend(vec![200, 100, 50, 1, 1, 1, 2, 2, 2, 3, 3, 3]);
    data.extend(vec![10, 20, 30, 4, 4, 4, 5, 5, 5, 6, 6, 6]);
    data.extend(vec![0, 0, 255, 7, 7, 7, 8, 8, 8, 9, 9, 9]);
    MemoryFrameSource::new(data, 2, 2, PixelFormat::Rgb24, 3).unwrap()
}

#[test]
fn pipeline_crop_then_grayscale_end_to_end() {
    let src = three_rgb_frames_2x2();
    let frames = IterFrame::new(src, (2, 2), 3);
    assert_eq!(frames.size_hint(), 3);
    let mut pipeline = frames.crop(0, 0, 1, 1).grayscale();
    // Stages pass the upstream's sizing hint on unchanged.
    assert_eq!(pipeline.size_hint(), 3);
    let expected_lumas = [124u8, 17, 28];
    for luma in expected_lumas {
        let frame = pipeline.next_frame().unwrap().unwrap();
        assert_eq!(frame.width(), 1);
        assert_eq!(frame.height(), 1);
        assert_eq!(frame.format(), PixelFormat::Rgb24);
        assert_eq!(frame.as_raw(), &vec![luma, luma, luma]);
    }
    assert!(pipeline.next_frame().unwrap().is_none());
}

#[test]
fn pipeline_resize_stage_reshapes_every_frame() {
    let src = three_rgb_frames_2x2();
    let mut pipeline = IterFrame::new(src, (2, 2), 3).resize(1, 1);
    let mut count = 0;
    while let Some(frame) = pipeline.next_frame().unwrap() {
        assert_eq!(frame.width(), 1);
        assert_eq!(frame.height(), 1);
        assert_eq!(frame.as_raw().len(), 3);
        count += 1;
    }
    assert_eq!(count, 3);
}

#[test]
fn pipeline_propagates_truncation() {
    // One whole 2x2 frame and half of another before the stream closes.
    let mut data: Vec<u8> = vec![9; 12];
    data.extend(vec![9; 5]);
    let src = MemoryFrameSource::new(data, 2, 2, PixelFormat::Rgb24, 4).unwrap();
    let mut pipeline = IterFrame::new(src, (2, 2), 4).grayscale();
    assert!(pipeline.next_frame().unwrap().is_some());
    assert!(matches!(pipeline.next_frame(), Err(Error::TruncatedStream)));
}

#[test]
fn pipeline_refuses_unsupported_layout_mid_stream() {
    let src = MemoryFrameSource::new(vec![1; 6], 2, 1, PixelFormat::Yuv420p, 1).unwrap();
    let mut pipeline = IterFrame::new(src, (2, 1), 1).grayscale();
    assert!(matches!(pipeline.next_frame(), Err(Error::UnsupportedFormat)));
}

#[test]
fn pipeline_crop_out_of_bounds_fails_at_pull() {
    let src = three_rgb_frames_2x2();
    let mut pipeline = IterFrame::new(src, (2, 2), 3).crop(1, 1, 2, 2);
    assert!(matches!(pipeline.next_frame(), Err(Error::SizeMismatch)));
}

#[test]
fn sink_accepts_only_whole_frames() {
    let mut sink = MemoryFrameSink::new(1, 2, 24000, PixelFormat::Rgb24).unwrap();
    sink.write_frame(&vec![1, 2, 3, 4, 5, 6]).unwrap();
    sink.write_frame(&vec![7, 8, 9, 10, 11, 12]).unwrap();
    assert!(matches!(sink.write_frame(&vec![1, 2, 3]), Err(Error::SizeMismatch)));
    let written = sink.finish();
    assert_eq!(written, vec![1, 2, 3, 4, 5, 6, 7, 8, 9, 10, 11, 12]);
}

#[test]
fn write_failure_carries_the_diagnostics() {
    let e = framepipe::write_failure(
        String::from("broken pipe"),
        String::from("codec rejected the frame rate"),
    );
    match e {
        Error::WriteFailure { detail, diagnostics } => {
            assert_eq!(detail, "broken pipe");
            assert_eq!(diagnostics, "codec rejected the frame rate");
        },
        _ => panic!("a write failure must carry both texts"),
    }
}

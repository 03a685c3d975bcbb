use framepipe::Clip;
use framepipe::Error;
use framepipe::PixelFormat;
use framepipe::TimeDuration;
use framepipe::VideoMetadata;
use framepipe::derive_fps_milli;
use framepipe::frame_cap_from;

fn meta() -> VideoMetadata {
    VideoMetadata {
        width: 640,
        height: 360,
        duration_ms: 2000,
        nb_frames: 50,
        pix_fmt: PixelFormat::Rgb24,
    }
}

#[test]
fn timecode_pads_to_two_places() {
    assert_eq!(TimeDuration::new(1, 2, 3).timecode(), "01:02:03");
    assert_eq!(TimeDuration::new(0, 0, 0).timecode(), "00:00:00");
    assert_eq!(TimeDuration::new(12, 34, 56).timecode(), "12:34:56");
}

#[test]
fn timecode_keeps_wide_hours() {
    assert_eq!(TimeDuration::new(123, 4, 56).timecode(), "123:04:56");
}

#[test]
fn total_seconds_adds_the_fields() {
    assert_eq!(TimeDuration::new(1, 2, 3).total_seconds(), 3723);
    let d = TimeDuration::default();
    assert_eq!(d.total_seconds(), 0);
}

#[test]
fn fps_is_frames_over_duration() {
    // 50 frames over 2 seconds: 25 frames per second, in thousandths.
    assert_eq!(derive_fps_milli(50, 2000), Some(25000));
    assert_eq!(derive_fps_milli(30, 1001), Some(29970));
    assert_eq!(derive_fps_milli(50, 0), None);
}

#[test]
fn frame_cap_truncates_to_whole_frames() {
    // 2 seconds at 25 frames per second.
    assert_eq!(frame_cap_from(&TimeDuration::new(0, 0, 2), 25000), 50);
    // 1 second at 29.97 frames per second: 29.97 frames, truncated.
    assert_eq!(frame_cap_from(&TimeDuration::new(0, 0, 1), 29970), 29);
    assert_eq!(frame_cap_from(&TimeDuration::new(0, 0, 0), 25000), 0);
}

#[test]
fn clip_without_window_takes_the_whole_count() {
    let c = Clip::new(String::from("clip.mp4"), meta(), None, None).unwrap();
    assert_eq!(c.width(), 640);
    assert_eq!(c.height(), 360);
    assert_eq!(c.fps_milli(), 25000);
    assert_eq!(c.pixel_format(), PixelFormat::Rgb24);
    assert_eq!(c.nb_frames(), 50);
    assert_eq!(c.max_nb_frames(), 50);
}

#[test]
fn clip_window_caps_the_frames() {
    let c = Clip::new(
        String::from("clip.mp4"),
        meta(),
        Some(TimeDuration::new(0, 0, 1)),
        Some(TimeDuration::new(0, 0, 1)),
    )
    .unwrap();
    assert_eq!(c.max_nb_frames(), 25);
    let p = c.source_params();
    assert_eq!(p.path, "clip.mp4");
    assert_eq!(p.width, 640);
    assert_eq!(p.height, 360);
    assert_eq!(p.pix_fmt, PixelFormat::Rgb24);
    assert_eq!(p.seek, "00:00:01");
    assert_eq!(p.frame_cap, 25);
}

#[test]
fn clip_without_duration_is_metadata_unavailable() {
    let mut m = meta();
    m.duration_ms = 0;
    let r = Clip::new(String::from("clip.mp4"), m, None, None);
    assert!(matches!(r, Err(Error::MetadataUnavailable)));
}

#[test]
fn subclip_rederives_the_window() {
    let c = Clip::new(String::from("clip.mp4"), meta(), None, None).unwrap();
    let s = c.subclip(TimeDuration::new(0, 0, 1), TimeDuration::new(0, 0, 2));
    assert_eq!(s.fps_milli(), c.fps_milli());
    assert_eq!(s.nb_frames(), c.nb_frames());
    assert_eq!(s.max_nb_frames(), 50);
    let p = s.source_params();
    assert_eq!(p.seek, "00:00:01");
    assert_eq!(p.frame_cap, 50);
}

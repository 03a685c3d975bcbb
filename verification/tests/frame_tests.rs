use framepipe::Error;
use framepipe::ErrorKind;
use framepipe::Frame;
use framepipe::Pixel;
use framepipe::PixelFormat;
use framepipe::Rgb;
use framepipe::Yuv420p;
use framepipe::crop_frame;
use framepipe::grayscale_frame;
use framepipe::resize_frame;

fn rgb_frame_2x2() -> Frame {
    // Row-major pixels: (200,100,50) (10,20,30) / (0,0,255) (1,2,3).
    let data = vec![200, 100, 50, 10, 20, 30, 0, 0, 255, 1, 2, 3];
    Frame::from_vec(data, (2, 2), PixelFormat::Rgb24).unwrap()
}

#[test]
fn frame_exact_buffer_succeeds() {
    let f = rgb_frame_2x2();
    assert_eq!(f.width(), 2);
    assert_eq!(f.height(), 2);
    assert_eq!(f.format(), PixelFormat::Rgb24);
    assert_eq!(f.as_raw().len(), 12);
}

#[test]
fn frame_wrong_buffer_is_size_mismatch() {
    let r = Frame::from_vec(vec![0; 11], (2, 2), PixelFormat::Rgb24);
    assert!(matches!(r, Err(Error::SizeMismatch)));
    let r = Frame::from_vec(vec![0; 13], (2, 2), PixelFormat::Rgb24);
    assert!(matches!(r, Err(Error::SizeMismatch)));
    let r = Frame::from_vec(vec![0; 12], (2, 2), PixelFormat::Rgba);
    assert!(matches!(r, Err(Error::SizeMismatch)));
}

#[test]
fn frame_zero_dimensions_take_an_empty_buffer() {
    let f = Frame::from_vec(vec![], (0, 5), PixelFormat::Rgb24).unwrap();
    assert_eq!(f.pixel_count(), 0);
    let mut ps = f.pixels();
    assert!(ps.next().is_none());
    assert!(matches!(
        Frame::from_vec(vec![1], (0, 5), PixelFormat::Rgb24),
        Err(Error::SizeMismatch)
    ));
}

#[test]
fn frame_four_channel_layout() {
    let f = Frame::from_vec(vec![9; 8], (2, 1), PixelFormat::Rgba).unwrap();
    assert_eq!(f.as_raw().len(), 8);
    assert_eq!(f.format().channel_count(), 4);
}

#[test]
fn pixels_roundtrip_reconstructs_buffer() {
    let f = rgb_frame_2x2();
    let mut ps = f.pixels();
    assert_eq!(ps.size_hint(), 4);
    let mut rebuilt: Vec<u8> = Vec::new();
    let mut count = 0;
    while let Some(px) = ps.next() {
        assert_eq!(px.len(), 3);
        rebuilt.extend(px);
        count += 1;
    }
    assert_eq!(count, 4);
    assert_eq!(&rebuilt, f.as_raw());
    assert!(ps.next().is_none());
}

#[test]
fn pixel_accessors_are_row_major() {
    let f = rgb_frame_2x2();
    assert_eq!(f.pixel(0, 0), vec![200, 100, 50]);
    assert_eq!(f.pixel(1, 0), vec![10, 20, 30]);
    assert_eq!(f.pixel(0, 1), vec![0, 0, 255]);
    assert_eq!(f.pixel(1, 1), vec![1, 2, 3]);
    assert_eq!(f.pixel_at_flat(2), vec![0, 0, 255]);
    assert_eq!(f.pixel_count(), 4);
}

#[test]
fn pixels_mut_writes_persist() {
    let f = rgb_frame_2x2();
    let mut pm = f.pixels_mut();
    assert_eq!(pm.size_hint(), 4);
    let first = pm.peek().unwrap();
    assert_eq!(first, vec![200, 100, 50]);
    let prev = pm.replace_next(&vec![7, 8, 9]).unwrap();
    assert_eq!(prev, vec![200, 100, 50]);
    let second = pm.next().unwrap();
    assert_eq!(second, vec![10, 20, 30]);
    let g = pm.finish();
    assert_eq!(g.pixel(0, 0), vec![7, 8, 9]);
    assert_eq!(g.pixel(1, 0), vec![10, 20, 30]);
    assert_eq!(g.as_raw(), &vec![7, 8, 9, 10, 20, 30, 0, 0, 255, 1, 2, 3]);
}

#[test]
fn crop_takes_exactly_the_rectangle() {
    let f = rgb_frame_2x2();
    let c = crop_frame(&f, 1, 0, 1, 2).unwrap();
    assert_eq!(c.width(), 1);
    assert_eq!(c.height(), 2);
    assert_eq!(c.pixel(0, 0), f.pixel(1, 0));
    assert_eq!(c.pixel(0, 1), f.pixel(1, 1));
    assert_eq!(c.as_raw(), &vec![10, 20, 30, 1, 2, 3]);
}

#[test]
fn crop_whole_frame_is_identity() {
    let f = rgb_frame_2x2();
    let c = crop_frame(&f, 0, 0, 2, 2).unwrap();
    assert_eq!(c.as_raw(), f.as_raw());
}

#[test]
fn crop_out_of_bounds_fails_never_clamps() {
    let f = rgb_frame_2x2();
    assert!(matches!(crop_frame(&f, 1, 1, 2, 1), Err(Error::SizeMismatch)));
    assert!(matches!(crop_frame(&f, 0, 0, 3, 1), Err(Error::SizeMismatch)));
    assert!(matches!(crop_frame(&f, 2, 0, 1, 1), Err(Error::SizeMismatch)));
}

#[test]
fn grayscale_uses_the_fixed_truncating_weights() {
    let f = rgb_frame_2x2();
    let g = grayscale_frame(f).unwrap();
    // 200*30/100 + 100*59/100 + 50*11/100 = 60 + 59 + 5 = 124.
    assert_eq!(g.pixel(0, 0), vec![124, 124, 124]);
    // 10*30/100 + 20*59/100 + 30*11/100 = 3 + 11 + 3 = 17.
    assert_eq!(g.pixel(1, 0), vec![17, 17, 17]);
    // 0 + 0 + 255*11/100 = 28.
    assert_eq!(g.pixel(0, 1), vec![28, 28, 28]);
    // 1*30/100 + 2*59/100 + 3*11/100 = 0 + 1 + 0 = 1.
    assert_eq!(g.pixel(1, 1), vec![1, 1, 1]);
}

#[test]
fn grayscale_twice_on_settled_luma_values() {
    // Luma values 0, 100 and 200 are exactly rebuilt by the three
    // truncated terms, so a second pass changes nothing.
    let data = vec![0, 0, 0, 100, 100, 100, 200, 200, 200];
    let f = Frame::from_vec(data, (3, 1), PixelFormat::Rgb24).unwrap();
    let once = grayscale_frame(f).unwrap();
    let raw_once = once.as_raw().clone();
    let twice = grayscale_frame(once).unwrap();
    assert_eq!(twice.as_raw(), &raw_once);
}

#[test]
fn grayscale_refuses_non_rgb_layouts() {
    let f = Frame::from_vec(vec![0; 6], (2, 1), PixelFormat::Yuv420p).unwrap();
    assert!(matches!(grayscale_frame(f), Err(Error::UnsupportedFormat)));
    let f = Frame::from_vec(vec![0; 8], (2, 1), PixelFormat::Rgba).unwrap();
    assert!(matches!(grayscale_frame(f), Err(Error::UnsupportedFormat)));
}

#[test]
fn resize_delivers_requested_dimensions() {
    let f = rgb_frame_2x2();
    let r = resize_frame(&f, 1, 1).unwrap();
    assert_eq!(r.width(), 1);
    assert_eq!(r.height(), 1);
    assert_eq!(r.as_raw().len(), 3);
    let f2 = Frame::from_vec(vec![50, 60, 70], (1, 1), PixelFormat::Rgb24).unwrap();
    let r2 = resize_frame(&f2, 2, 2).unwrap();
    assert_eq!(r2.width(), 2);
    assert_eq!(r2.height(), 2);
    assert_eq!(r2.as_raw().len(), 12);
}

#[test]
fn resize_refuses_non_rgb_layouts() {
    let f = Frame::from_vec(vec![0; 6], (2, 1), PixelFormat::Yuv420p).unwrap();
    assert!(matches!(resize_frame(&f, 1, 1), Err(Error::UnsupportedFormat)));
}

#[test]
fn transform_applies_per_pixel_in_place() {
    let f = rgb_frame_2x2();
    let t = f.transform(|p: Rgb| Rgb([p.0[0], 0, p.0[2]]));
    assert_eq!(t.pixel(0, 0), vec![200, 0, 50]);
    assert_eq!(t.pixel(1, 1), vec![1, 0, 3]);
    assert_eq!(t.width(), 2);
    assert_eq!(t.height(), 2);
}

#[test]
fn map_hands_the_frame_through() {
    let f = rgb_frame_2x2();
    let raw = f.as_raw().clone();
    let m = f.map(|g: Frame| g);
    assert_eq!(m.as_raw(), &raw);
}

#[test]
fn typed_pixels_read_buffer_windows() {
    let p = Rgb::from_slice(&[5, 6, 7]);
    assert_eq!(p.0, [5, 6, 7]);
    assert_eq!(p.to_vec(), vec![5, 6, 7]);
    let q = Yuv420p::from_slice(&[8, 9, 10]);
    assert_eq!(q.0, [8, 9, 10]);
    assert_eq!(<Rgb as Pixel>::channel_count(), 3);
    assert_eq!(<Yuv420p as Pixel>::channel_count(), 3);
    assert_eq!(<Rgb as Pixel>::name(), "rgb24");
    assert_eq!(<Yuv420p as Pixel>::name(), "yuv420p");
    assert_eq!(<Rgb as Pixel>::format(), PixelFormat::Rgb24);
}

#[test]
fn format_layout_queries() {
    assert_eq!(PixelFormat::Rgb24.channel_count(), 3);
    assert_eq!(PixelFormat::Yuv420p.channel_count(), 3);
    assert_eq!(PixelFormat::Rgba.channel_count(), 4);
    assert_eq!(PixelFormat::Rgb24.name(), "rgb24");
    assert_eq!(PixelFormat::Yuv420p.name(), "yuv420p");
    assert_eq!(PixelFormat::Rgba.name(), "rgba");
    assert_eq!(
        PixelFormat::Rgb24.channel_semantics().len(),
        PixelFormat::Rgb24.channel_count() as usize
    );
    assert_eq!(
        PixelFormat::Rgba.channel_semantics().len(),
        PixelFormat::Rgba.channel_count() as usize
    );
    assert_eq!(PixelFormat::from_tag("rgb24"), Some(PixelFormat::Rgb24));
    assert_eq!(PixelFormat::from_tag("yuv420p"), Some(PixelFormat::Yuv420p));
    assert_eq!(PixelFormat::from_tag("rgba"), Some(PixelFormat::Rgba));
    assert_eq!(PixelFormat::from_tag("gray"), None);
    assert_eq!(PixelFormat::from_tag(""), None);
}

#[test]
fn error_kinds_name_their_variants() {
    assert_eq!(Error::TruncatedStream.kind(), ErrorKind::TruncatedStream);
    assert_eq!(Error::SizeMismatch.kind(), ErrorKind::SizeMismatch);
    assert_eq!(Error::UnsupportedFormat.kind(), ErrorKind::UnsupportedFormat);
    assert_eq!(Error::FileNotFound.kind(), ErrorKind::FileNotFound);
    assert_eq!(Error::MetadataUnavailable.kind(), ErrorKind::MetadataUnavailable);
    assert_eq!(Error::SpawnFailure.kind(), ErrorKind::SpawnFailure);
}

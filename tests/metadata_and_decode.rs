use std::time::{Duration, Instant};
use vrr::fps_meter::FpsMeter;
use vrr::image_loader::{ImageRef, ImageRequest};
use vrr::input_events::{command_for_key, Command, Key};
use vrr::layers::Orientation;
use vrr::overlay::{HorizontalPosition, Position, VerticalPosition};
use vrr::storage::{ImageMetadata, Storage, TAG_STARRED};
use vrr::texture::{
    byte_source, pixel_format, ByteSource, ColorSpace, DecodeError, DecodeStats, ImageResolution,
    PixelFormat, SizedImage,
};

#[test]
fn tags_are_added_once() {
    let mut m = ImageMetadata::new();
    m.add_tag("a".to_string());
    m.add_tag("b".to_string());
    m.add_tag("a".to_string());
    assert_eq!(m.tags, vec!["a".to_string(), "b".to_string()]);
    assert!(m.has_tag("a"));
    assert!(!m.has_tag("c"));
    m.remove_tag("a");
    assert_eq!(m.tags, vec!["b".to_string()]);
    m.remove_tag("zzz");
    assert_eq!(m.tags, vec!["b".to_string()]);
}

#[test]
fn toggle_twice_restores() {
    let mut m = ImageMetadata::new();
    m.toggle_tag(TAG_STARRED.to_string());
    assert!(m.has_tag("starred"));
    m.toggle_tag(TAG_STARRED.to_string());
    assert!(!m.has_tag(TAG_STARRED));
    assert!(m.tags.is_empty());
}

#[test]
fn storage_entry_is_created_and_kept() {
    let mut s = Storage::with_path("meta.json".to_string());
    let a = ImageRef::new("/p/a.jpg".to_string());
    assert!(s.get(&a).is_none());
    s.entry(&a).add_tag(TAG_STARRED.to_string());
    assert!(s.entry(&a).has_tag(TAG_STARRED));
    assert_eq!(s.get(&a).unwrap().tags, vec!["starred".to_string()]);
    let mut other = ImageMetadata::new();
    other.add_tag("x".to_string());
    s.insert("/p/b.jpg".to_string(), other);
    let mut paths = s.paths();
    paths.sort();
    assert_eq!(paths, vec!["/p/a.jpg".to_string(), "/p/b.jpg".to_string()]);
    assert_eq!(s.file_path(), "meta.json");
    s.entry(&a).remove_tag(TAG_STARRED);
    assert!(s.get(&a).unwrap().tags.is_empty());
}

#[test]
fn fps_counts_frames_per_second() {
    let mut meter = FpsMeter::new();
    assert_eq!(meter.fps(), 0);
    let t = Instant::now();
    meter.record_frame(t, 0);
    meter.record_frame(t, 0);
    meter.record_frame(t, 0);
    assert_eq!(meter.fps(), 0);
    meter.record_frame(t, 1);
    assert_eq!(meter.fps(), 4);
    meter.record_frame(t, 0);
    meter.record_frame(t, 2);
    assert_eq!(meter.fps(), 2);
    meter.tick();
    assert!(meter.fps() == 2 || meter.fps() == 1);
}

#[test]
fn decode_format_choice() {
    assert_eq!(pixel_format(8, ColorSpace::Rgba), Ok(PixelFormat::RGBA));
    assert_eq!(pixel_format(8, ColorSpace::Rgb), Ok(PixelFormat::RGB));
    assert_eq!(pixel_format(4, ColorSpace::Rgba), Err(DecodeError::UnsupportedScale(4)));
    assert_eq!(
        pixel_format(8, ColorSpace::Yuv),
        Err(DecodeError::UnsupportedColorSpace(ColorSpace::Yuv))
    );
}

#[test]
fn decode_byte_source() {
    assert_eq!(
        byte_source(ImageResolution::THUMBNAIL, true),
        Ok(ByteSource::EmbeddedThumbnail)
    );
    assert_eq!(
        byte_source(ImageResolution::THUMBNAIL, false),
        Ok(ByteSource::WholeFile)
    );
    assert_eq!(byte_source(ImageResolution::NATIVE, true), Ok(ByteSource::WholeFile));
    assert_eq!(
        byte_source(ImageResolution::FULLHD, true),
        Err(DecodeError::UnsupportedResolution(ImageResolution::FULLHD))
    );
}

#[test]
fn sized_image_checks_pixel_count() {
    let request = ImageRequest::new(ImageRef::new("a.jpg".to_string()), ImageResolution::NATIVE);
    let ok = SizedImage::from_rgba(request.clone(), Orientation::Rotate90, 2, 3, vec![7u8; 24]).unwrap();
    assert_eq!(ok.image_ref.path, "a.jpg");
    assert_eq!(ok.resolution, ImageResolution::NATIVE);
    assert_eq!(ok.orientation, Orientation::Rotate90);
    assert_eq!(ok.image.width(), 2);
    assert_eq!(ok.image.height(), 3);
    let short = SizedImage::from_rgba(request, Orientation::Normal, 2, 3, vec![0u8; 23]);
    assert_eq!(
        short.err(),
        Some(DecodeError::BufferTooSmall { width: 2, height: 3, len: 23 })
    );
}

#[test]
fn resolution_order() {
    assert!(ImageResolution::NATIVE.is_better_than(&ImageResolution::FULLHD));
    assert!(ImageResolution::FULLHD.is_better_than(&ImageResolution::THUMBNAIL));
    assert!(!ImageResolution::THUMBNAIL.is_better_than(&ImageResolution::THUMBNAIL));
    assert_eq!(ImageResolution::NATIVE.rank(), 2);
}

#[test]
fn decode_stats_keep_values() {
    let stats = DecodeStats::new(1024, Duration::from_millis(5));
    assert_eq!(stats.byte_count(), 1024);
    assert_eq!(*stats.elapsed_time(), Duration::from_millis(5));
}

#[test]
fn overlay_position_fields() {
    let p = Position::new(HorizontalPosition::Right, VerticalPosition::Bottom);
    assert_eq!(p.0, HorizontalPosition::Right);
    assert_eq!(p.1, VerticalPosition::Bottom);
}

#[test]
fn key_bindings() {
    assert_eq!(command_for_key(Key::Escape), Some(Command::Exit));
    assert_eq!(command_for_key(Key::Q), Some(Command::Exit));
    assert_eq!(command_for_key(Key::J), Some(Command::NextImage));
    assert_eq!(command_for_key(Key::K), Some(Command::PrevImage));
    assert_eq!(command_for_key(Key::F), Some(Command::ToggleFullscreen));
    assert_eq!(command_for_key(Key::M), Some(Command::ToggleStar));
    assert_eq!(command_for_key(Key::X), Some(Command::ResetView));
    assert_eq!(command_for_key(Key::R), Some(Command::Reload));
    assert_eq!(command_for_key(Key::Plus), None);
    assert_eq!(command_for_key(Key::Other), None);
}

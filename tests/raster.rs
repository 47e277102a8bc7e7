use xkcdfs::raster::{jpeg_to_cairo, raster_from_jpeg, surface_format_for, PixelFormat, RasterError, SurfaceFormat};

#[test]
fn rgb_pixels_become_words() {
    let data = vec![1, 2, 3, 255, 0, 128];
    let (stride, words) = jpeg_to_cairo(&data, 2, 1, PixelFormat::RGB24, SurfaceFormat::Rgb24).unwrap();
    assert_eq!(stride, 8);
    assert_eq!(words, vec![0x010203, 0xff0080]);
}

#[test]
fn unsupported_layouts_are_refused() {
    let data = vec![0; 4];
    assert_eq!(
        jpeg_to_cairo(&data, 2, 2, PixelFormat::L8, SurfaceFormat::A8),
        Err(RasterError::UnsupportedSurfaceFormat(SurfaceFormat::A8))
    );
    assert_eq!(
        jpeg_to_cairo(&data, 2, 2, PixelFormat::L8, SurfaceFormat::Rgb24),
        Err(RasterError::UnsupportedPair(PixelFormat::L8, SurfaceFormat::Rgb24))
    );
    assert_eq!(
        jpeg_to_cairo(&data, 1, 1, PixelFormat::CMYK32, SurfaceFormat::Rgb24),
        Err(RasterError::UnsupportedPixelFormat(PixelFormat::CMYK32))
    );
    assert_eq!(
        jpeg_to_cairo(&data, 2, 2, PixelFormat::RGB24, SurfaceFormat::Rgb24),
        Err(RasterError::SizeMismatch)
    );
    assert_eq!(surface_format_for(PixelFormat::CMYK32), Err(RasterError::Cmyk));
    assert_eq!(surface_format_for(PixelFormat::L8), Ok(SurfaceFormat::A8));
}

#[test]
fn non_jpeg_bytes_are_refused() {
    assert_eq!(raster_from_jpeg(&b"not an image".to_vec()).err(), Some(RasterError::NotJpeg));
}

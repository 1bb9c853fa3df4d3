use foxglove_webtransport::compression::{decompress, keep_if_shorter, Compressor};

#[test]
fn test_compress_decompress_roundtrip() {
    let compressor = Compressor::new(1);
    // CDR-like data with repeated patterns compresses well
    let data: Vec<u8> = (0..1024)
        .flat_map(|i| {
            let val = (i % 256) as u8;
            vec![val, 0, 0, 0] // simulates padded CDR fields
        })
        .collect();

    let compressed = compressor
        .compress(&data)
        .expect("compression should succeed");
    assert!(compressed.len() < data.len(), "compressed should be smaller");

    let decompressed =
        decompress(&compressed, data.len() * 2).expect("decompression should succeed");
    assert_eq!(decompressed, data);
}

#[test]
fn test_compress_incompressible_returns_none() {
    let compressor = Compressor::new(1);
    // Random-looking data that won't compress
    let data: Vec<u8> = (0..32).collect();
    // Very small random data may not compress at all
    // This is fine: the caller falls back to uncompressed
    let _ = compressor.compress(&data);
}

#[test]
fn distinct_bytes_do_not_compress() {
    let data: Vec<u8> = (0..32).collect();
    assert!(Compressor::new(1).compress(&data).is_none());
    assert!(Compressor::new(1).compress(&[]).is_none());
}

#[test]
fn every_level_gives_the_data_back() {
    let data = vec![7u8; 5000];
    for level in [1, 3, 19] {
        let compressed = Compressor::new(level).compress(&data).unwrap();
        assert_ne!(compressed, data);
        assert_eq!(decompress(&compressed, data.len()).unwrap(), data);
    }
}

#[test]
fn compressing_twice_gives_the_same_bytes() {
    let data = vec![1u8; 300];
    let compressor = Compressor::new(5);
    assert_eq!(compressor.compress(&data), compressor.compress(&data));
}

#[test]
fn decompress_refuses_what_is_not_zstd() {
    assert!(decompress(b"not a zstd frame", 100).is_none());
}

#[test]
fn decompress_refuses_what_does_not_fit() {
    let data = vec![0u8; 100_000];
    let compressed = Compressor::new(1).compress(&data).unwrap();
    assert!(decompress(&compressed, 10).is_none());
}

#[test]
fn only_shorter_output_is_kept() {
    assert_eq!(keep_if_shorter(vec![1, 2], 3), Some(vec![1, 2]));
    assert_eq!(keep_if_shorter(vec![1, 2, 3], 3), None);
    assert_eq!(keep_if_shorter(vec![1, 2, 3, 4], 3), None);
}

#[test]
fn levels_out_of_range_are_taken() {
    for level in [i32::MIN, -1, 0, 23, i32::MAX] {
        let mut cctx = zstd_safe::CCtx::create();
        assert!(cctx.set_parameter(zstd_safe::CParameter::CompressionLevel(level)).is_ok());
    }
    let data = vec![7u8; 5000];
    for level in [-1, 0, i32::MAX] {
        let compressed = Compressor::new(level).compress(&data).unwrap();
        assert_eq!(decompress(&compressed, data.len()).unwrap(), data);
    }
    // The lowest level looks for nothing so close together: the frame is longer than the data.
    assert!(Compressor::new(i32::MIN).compress(&data).is_none());
}

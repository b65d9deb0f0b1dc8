//! Driving the planned pipeline against real codecs, in memory.

use std::io::{Read, Write};

use ouch::extension::{extensions_from_path, flatten_compression_formats};
use ouch::pipeline::{plan_compression_stages, plan_decompression_stages, PipelineMode};
use ouch::CompressionFormat;

fn tar_bundle(entries: &[(&str, &[u8])]) -> Vec<u8> {
    let mut b = tar::Builder::new(Vec::new());
    for (name, data) in entries {
        let mut h = tar::Header::new_gnu();
        h.set_size(data.len() as u64);
        h.set_mode(0o644);
        h.set_cksum();
        b.append_data(&mut h, name, *data).unwrap();
    }
    b.into_inner().unwrap()
}

fn gzip(data: &[u8]) -> Vec<u8> {
    let mut e = flate2::write::GzEncoder::new(Vec::new(), flate2::Compression::default());
    e.write_all(data).unwrap();
    e.finish().unwrap()
}

fn gunzip(data: &[u8]) -> Vec<u8> {
    let mut d = flate2::read::GzDecoder::new(data);
    let mut out = Vec::new();
    d.read_to_end(&mut out).unwrap();
    out
}

fn untar(data: &[u8]) -> Vec<(String, Vec<u8>)> {
    let mut a = tar::Archive::new(data);
    let mut out = Vec::new();
    for entry in a.entries().unwrap() {
        let mut entry = entry.unwrap();
        let name = entry.path().unwrap().to_string_lossy().to_string();
        let mut content = Vec::new();
        entry.read_to_end(&mut content).unwrap();
        out.push((name, content));
    }
    out
}

#[test]
fn compressing_then_decompressing_reproduces_every_file() {
    // A directory with files {a.txt, b.txt} bundled to out.tar.gz and
    // back: both files come back with identical byte content.
    let inputs: [(&str, &[u8]); 2] = [
        ("a.txt", b"alpha contents\n"),
        ("b.txt", b"beta contents, longer and different\n"),
    ];

    let exts = extensions_from_path("out.tar.gz");
    let chain = flatten_compression_formats(&exts);
    assert_eq!(chain, vec![CompressionFormat::Tar, CompressionFormat::Gzip]);

    let stages = plan_compression_stages(&chain);
    let mut payload: Vec<u8> = Vec::new();
    for st in &stages {
        assert_eq!(st.mode, PipelineMode::Streaming);
        match st.format {
            CompressionFormat::Tar => payload = tar_bundle(&inputs),
            CompressionFormat::Gzip => payload = gzip(&payload),
            _ => panic!("unplanned stage"),
        }
    }

    let dstages = plan_decompression_stages(&chain);
    assert_eq!(dstages[0].format, CompressionFormat::Gzip);
    assert_eq!(dstages[1].format, CompressionFormat::Tar);
    let unzipped = gunzip(&payload);
    let files = untar(&unzipped);

    assert_eq!(files.len(), 2);
    assert_eq!(files[0].0, "a.txt");
    assert_eq!(files[0].1, inputs[0].1);
    assert_eq!(files[1].0, "b.txt");
    assert_eq!(files[1].1, inputs[1].1);
}

#[test]
fn gzip_round_trip_alone() {
    let data = b"just one stream of bytes";
    let exts = extensions_from_path("f.gz");
    let chain = flatten_compression_formats(&exts);
    assert_eq!(chain, vec![CompressionFormat::Gzip]);
    assert_eq!(gunzip(&gzip(data)).as_slice(), data);
}

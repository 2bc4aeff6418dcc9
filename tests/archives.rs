use packy::sniff::{sniff, ArchiveKind};
use packy::path::strip_components_from_path;
use std::io::{Cursor, Read, Write};

fn tar_bytes(entries: &[(&str, Option<&[u8]>)]) -> Vec<u8> {
    let mut b = tar::Builder::new(Vec::new());
    for (name, data) in entries {
        let mut h = tar::Header::new_gnu();
        match data {
            Some(d) => {
                h.set_entry_type(tar::EntryType::Regular);
                h.set_size(d.len() as u64);
                h.set_mode(0o644);
                h.set_cksum();
                b.append_data(&mut h, name, *d).unwrap();
            }
            None => {
                h.set_entry_type(tar::EntryType::Directory);
                h.set_size(0);
                h.set_mode(0o755);
                h.set_cksum();
                b.append_data(&mut h, name, std::io::empty()).unwrap();
            }
        }
    }
    b.into_inner().unwrap()
}

/// Reads every entry of a tar stream and returns the stripped path and
/// content of those that are kept.
fn stripped_entries<R: Read>(reader: R, strip: usize) -> Vec<(String, Vec<u8>)> {
    let mut archive = tar::Archive::new(reader);
    let mut out = Vec::new();
    for entry in archive.entries().unwrap() {
        let mut entry = entry.unwrap();
        let path = entry.path().unwrap().to_string_lossy().into_owned();
        if let Some(rel) = strip_components_from_path(&path, strip) {
            let mut data = Vec::new();
            entry.read_to_end(&mut data).unwrap();
            out.push((rel, data));
        }
    }
    out
}

#[test]
fn gzip_tar_with_strip_one() {
    let tar = tar_bytes(&[
        ("proj/", None),
        ("proj/README.md", Some(b"# readme\n")),
        ("proj/src/", None),
        ("proj/src/main.ext", Some(b"main body\n")),
    ]);
    let mut enc = flate2::write::GzEncoder::new(Vec::new(), flate2::Compression::default());
    enc.write_all(&tar).unwrap();
    let gz = enc.finish().unwrap();

    assert_eq!(sniff(&gz), Ok(ArchiveKind::Gzip));
    let got = stripped_entries(flate2::read::GzDecoder::new(Cursor::new(gz)), 1);
    let paths: Vec<&str> = got.iter().map(|(p, _)| p.as_str()).collect();
    assert_eq!(paths, vec!["README.md", "src", "src/main.ext"]);
    assert!(!paths.iter().any(|p| p.starts_with("proj")));
    assert_eq!(got[0].1, b"# readme\n".to_vec());
    assert_eq!(got[2].1, b"main body\n".to_vec());
}

#[test]
fn bzip2_tar_single_root_file() {
    let tar = tar_bytes(&[("hello.txt", Some(b"hello, world\n"))]);
    let mut enc = bzip2::write::BzEncoder::new(Vec::new(), bzip2::Compression::default());
    enc.write_all(&tar).unwrap();
    let bz = enc.finish().unwrap();

    assert_eq!(sniff(&bz), Ok(ArchiveKind::Bzip2));
    let got = stripped_entries(bzip2::read::BzDecoder::new(Cursor::new(bz)), 0);
    assert_eq!(got, vec![("hello.txt".to_string(), b"hello, world\n".to_vec())]);
}

#[test]
fn xz_tar_is_recognised() {
    let tar = tar_bytes(&[("dir/a.txt", Some(b"a"))]);
    let mut enc = xz2::write::XzEncoder::new(Vec::new(), 6);
    enc.write_all(&tar).unwrap();
    let xz = enc.finish().unwrap();

    assert_eq!(sniff(&xz), Ok(ArchiveKind::Xz));
    let got = stripped_entries(xz2::read::XzDecoder::new(Cursor::new(xz)), 1);
    assert_eq!(got, vec![("a.txt".to_string(), b"a".to_vec())]);
}

#[test]
fn zip_archive_is_recognised() {
    let mut w = zip::ZipWriter::new(Cursor::new(Vec::new()));
    w.start_file("x/y.txt", zip::write::SimpleFileOptions::default()).unwrap();
    w.write_all(b"y").unwrap();
    let bytes = w.finish().unwrap().into_inner();
    assert_eq!(sniff(&bytes), Ok(ArchiveKind::Zip));
}

#[test]
fn tar_round_trip_keeps_files_and_contents() {
    let files: [(&str, &[u8]); 3] = [
        ("top/a.txt", b"alpha"),
        ("top/sub/b.bin", &[0, 1, 2, 255]),
        ("top/sub/deeper/c", b""),
    ];
    let entries: Vec<(&str, Option<&[u8]>)> = files.iter().map(|(n, d)| (*n, Some(*d))).collect();
    let tar = tar_bytes(&entries);
    let mut enc = flate2::write::GzEncoder::new(Vec::new(), flate2::Compression::default());
    enc.write_all(&tar).unwrap();
    let gz = enc.finish().unwrap();

    let got = stripped_entries(flate2::read::GzDecoder::new(Cursor::new(gz)), 0);
    let want: Vec<(String, Vec<u8>)> =
        files.iter().map(|(n, d)| (n.to_string(), d.to_vec())).collect();
    assert_eq!(got, want);
}

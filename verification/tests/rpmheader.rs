use lx_plugins::plugins::package_index::keyvalue::KeyValues;
use lx_plugins::rpmarchive::{
    auto_elf_relations, collect_file_langs, inject_file_langs, parse_rpm_trigger_entries,
    ElfFacts, FileLangsError, RpmHeaderError,
};

fn be(v: u32) -> [u8; 4] {
    v.to_be_bytes()
}

fn index_header(n: u32, hsize: u32) -> Vec<u8> {
    let mut h = vec![0x8e, 0xad, 0xe8, 0x01, 0, 0, 0, 0];
    h.extend_from_slice(&be(n));
    h.extend_from_slice(&be(hsize));
    h
}

fn entry(tag: u32, ty: u32, off: u32, count: u32) -> Vec<u8> {
    let mut e = Vec::new();
    for v in [tag, ty, off, count] {
        e.extend_from_slice(&be(v));
    }
    e
}

fn descriptor() -> Vec<u8> {
    (100u8..116).collect()
}

/// A lead, an empty signature header, then a main header with a
/// FILELANGS entry and the region descriptor as its only store content.
fn package(sig_store: &[u8]) -> Vec<u8> {
    let mut b = vec![0u8; 96];
    b.extend(index_header(0, sig_store.len() as u32));
    b.extend_from_slice(sig_store);
    let pad = (8 - sig_store.len() % 8) % 8;
    b.extend(std::iter::repeat(0u8).take(pad));
    b.extend(index_header(2, 16));
    b.extend(entry(1097, 8, 0, 0));
    b.extend(entry(63, 7, 0, 16));
    b.extend(descriptor());
    b.extend([1u8, 2, 3]);
    b
}

fn langs(v: &[&str]) -> Vec<String> {
    v.iter().map(|s| s.to_string()).collect()
}

#[test]
fn file_langs_are_written_before_the_region_descriptor() {
    for sig_store in [&b""[..], &b"abcde"[..]] {
        let input = package(sig_store);
        let main_start = input.len() - (16 + 32 + 16 + 3);
        let (out, sha) = inject_file_langs(&input, &langs(&["", "de"])).unwrap();
        let mut header = index_header(2, 20);
        header.extend(entry(1097, 8, 0, 2));
        header.extend(entry(63, 7, 4, 16));
        header.extend([0u8, b'd', b'e', 0]);
        header.extend(descriptor());
        let mut expected = input[..main_start].to_vec();
        expected.extend(&header);
        expected.extend([1u8, 2, 3]);
        assert_eq!(out, expected);
        assert_eq!(sha, "f2e31ba4fcb33a1ddfb933d635bc9a63ed33e0ceb2616526a7f8509020119311");
    }
}

#[test]
fn file_langs_errors() {
    let l = langs(&["de"]);
    assert_eq!(inject_file_langs(&vec![0u8; 100], &l), Err(FileLangsError::TooShort));
    let mut bad = package(b"");
    bad[96] = 0;
    assert_eq!(
        inject_file_langs(&bad, &l),
        Err(FileLangsError::Header(RpmHeaderError::BadMagic))
    );
    let good = package(b"");
    assert_eq!(inject_file_langs(&good[..120].to_vec(), &l), Err(FileLangsError::TruncatedBeforeMain));
    assert_eq!(
        inject_file_langs(&good[..good.len() - 10].to_vec(), &l),
        Err(FileLangsError::MainPastEnd)
    );
    let mut no_langs = package(b"");
    // Retag FILELANGS (main header starts at 112, first entry at 128).
    no_langs[128..132].copy_from_slice(&be(1000));
    assert_eq!(inject_file_langs(&no_langs, &l), Err(FileLangsError::NoFileLangs));
    let mut no_region = package(b"");
    no_region[144..148].copy_from_slice(&be(1000));
    assert_eq!(inject_file_langs(&no_region, &l), Err(FileLangsError::NoRegion));
    let mut negative = package(b"");
    negative[152..156].copy_from_slice(&be(0xffff_fff0));
    assert_eq!(inject_file_langs(&negative, &l), Err(FileLangsError::NegativeDescriptor));
    let mut past = package(b"");
    past[152..156].copy_from_slice(&be(8));
    assert_eq!(inject_file_langs(&past, &l), Err(FileLangsError::DescriptorPastStore));
}

#[test]
fn descriptor_must_end_the_store() {
    let mut b = vec![0u8; 96];
    b.extend(index_header(0, 0));
    b.extend(index_header(2, 20));
    b.extend(entry(1097, 8, 0, 0));
    b.extend(entry(63, 7, 0, 16));
    b.extend(descriptor());
    b.extend([9u8; 4]);
    assert_eq!(
        inject_file_langs(&b, &langs(&["de"])),
        Err(FileLangsError::DescriptorNotLast)
    );
}

#[test]
fn automatic_elf_relations() {
    let files = vec![
        ElfFacts {
            file_name: "libfoo.so.1".to_string(),
            class_byte: Some(2),
            needed: langs(&["libc.so.6", "ld-linux-x86-64.so.2", "libz.so.1"]),
        },
        ElfFacts {
            file_name: "tool".to_string(),
            class_byte: Some(1),
            needed: langs(&["libz.so.1", "linux-vdso.so.1"]),
        },
        ElfFacts { file_name: "libbar.so".to_string(), class_byte: None, needed: vec![] },
    ];
    let (req, prov) = auto_elf_relations(&files);
    assert_eq!(
        req,
        langs(&["libc.so.6()(64bit)", "libz.so.1()(32bit)", "libz.so.1()(64bit)"])
    );
    assert_eq!(
        prov,
        langs(&["libbar.so", "libbar.so()(64bit)", "libfoo.so.1", "libfoo.so.1()(64bit)"])
    );
    assert_eq!(auto_elf_relations(&vec![]), (vec![], vec![]));
}

#[test]
fn file_langs_follow_the_file_order() {
    let by_path = KeyValues {
        pairs: vec![
            ("/usr/share/locale/de/x.mo".to_string(), "de".to_string()),
            ("/usr/bin/x".to_string(), String::new()),
        ],
    };
    let paths = langs(&["/usr/bin/x", "/usr/share/locale/de/x.mo", "/usr/share/doc/x"]);
    assert_eq!(collect_file_langs(&paths, &by_path), Some(langs(&["", "de", ""])));
    assert_eq!(collect_file_langs(&langs(&["/usr/bin/x"]), &by_path), None);
}

#[test]
fn trigger_entries() {
    let entries = langs(&[" foo : scripts/t.sh ", "", " : x", "bar:"]);
    assert_eq!(
        parse_rpm_trigger_entries(&entries).unwrap(),
        vec![
            ("foo".to_string(), "scripts/t.sh".to_string()),
            ("bar".to_string(), String::new())
        ]
    );
    let err = parse_rpm_trigger_entries(&langs(&["ok: a", " broken ", "x"])).unwrap_err();
    assert_eq!(err.entry, "broken");
}

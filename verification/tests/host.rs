use check_my_server::diagnostics::host::{collect, count_packages, Listing, PackageProbe, Utsname};

fn probe(pacman: Listing<u64>, dpkg: Listing<Vec<String>>, apk: Listing<String>) -> PackageProbe {
    PackageProbe { pacman, dpkg, apk }
}

#[test]
fn pacman_comes_first() {
    let p = probe(Listing::Read(42), Listing::Read(vec!["a.list".to_string()]), Listing::Absent);
    assert_eq!(count_packages(&p), (Some(42), Some("pacman".to_string())));
    let p = probe(Listing::Unreadable, Listing::Absent, Listing::Absent);
    assert_eq!(count_packages(&p), (None, Some("pacman".to_string())));
}

#[test]
fn dpkg_counts_file_lists() {
    let names = vec!["bash.list", "bash.md5sums", ".list", "x.y.list", "list", "z.List", "..", "lib.list"];
    let p = probe(Listing::Absent, Listing::Read(names.iter().map(|s| s.to_string()).collect()), Listing::Absent);
    assert_eq!(count_packages(&p), (Some(3), Some("dpkg".to_string())));
}

#[test]
fn apk_counts_package_lines() {
    let db = "C:Q1abc\nP:musl\nV:1.2\n\nP:busybox\nV:1\np:lower\n".to_string();
    let p = probe(Listing::Absent, Listing::Absent, Listing::Read(db));
    assert_eq!(count_packages(&p), (Some(2), Some("apk".to_string())));
    let p = probe(Listing::Absent, Listing::Absent, Listing::Absent);
    assert_eq!(count_packages(&p), (None, None));
}

#[test]
fn collect_maps_uname_fields() {
    let uts = Utsname {
        sysname: "Linux".into(),
        nodename: "box".into(),
        release: "6.1.0".into(),
        version: "#1 SMP".into(),
        machine: "x86_64".into(),
    };
    let h = collect(uts, &probe(Listing::Absent, Listing::Unreadable, Listing::Absent));
    assert_eq!(h.hostname, "box");
    assert_eq!(h.os_type, "Linux");
    assert_eq!(h.kernel_release, "6.1.0");
    assert_eq!(h.kernel_version, "#1 SMP");
    assert_eq!(h.arch, "x86_64");
    assert_eq!(h.packages, None);
    assert_eq!(h.package_manager, Some("dpkg".to_string()));
}

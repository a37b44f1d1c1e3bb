use fexplorer::metadata::{format_permissions, triplet};

#[test]
fn test_format_permissions() {
    assert_eq!(format_permissions(0o755), "rwxr-xr-x");
    assert_eq!(format_permissions(0o644), "rw-r--r--");
    assert_eq!(format_permissions(0o777), "rwxrwxrwx");
}

#[test]
fn permissions_of_nothing_and_of_single_bits() {
    assert_eq!(format_permissions(0), "---------");
    assert_eq!(format_permissions(0o400), "r--------");
    assert_eq!(format_permissions(0o020), "----w----");
    assert_eq!(format_permissions(0o001), "--------x");
    // Bits above the nine permission bits do not show.
    assert_eq!(format_permissions(0o100644), "rw-r--r--");
}

#[test]
fn triplet_reads_the_bits_at_its_shift() {
    assert_eq!(triplet(0o750, 6), "rwx");
    assert_eq!(triplet(0o750, 3), "r-x");
    assert_eq!(triplet(0o750, 0), "---");
    assert_eq!(triplet(0o3, 0), "-wx");
}

use zxp_manager::plugin::{calculate_folder_size, format_size, total_size};

#[test]
fn size_bytes_kilobytes_megabytes() {
    assert_eq!(format_size(512), "512 B");
    assert_eq!(format_size(2048), "2.0 KB");
    assert_eq!(format_size(3 * 1024 * 1024), "3.0 MB");
}

#[test]
fn size_thresholds() {
    assert_eq!(format_size(0), "0 B");
    assert_eq!(format_size(1023), "1023 B");
    assert_eq!(format_size(1024), "1.0 KB");
    assert_eq!(format_size(1536), "1.5 KB");
    assert_eq!(format_size(1048575), "1024.0 KB");
    assert_eq!(format_size(1048576), "1.0 MB");
}

#[test]
fn size_rounds_to_nearest_tenth() {
    // 1.25 KB sits exactly between two tenths and rounds to the even one.
    assert_eq!(format_size(1280), "1.2 KB");
    // 1075 bytes are 1.0498 KB.
    assert_eq!(format_size(1075), "1.0 KB");
    // 1076 bytes are 1.0508 KB.
    assert_eq!(format_size(1076), "1.1 KB");
    assert_eq!(format_size(10 * 1024 * 1024 + 512 * 1024), "10.5 MB");
}

#[test]
fn folder_size_from_file_lengths() {
    assert_eq!(calculate_folder_size(Some(&vec![100, 200])), "300 B");
    assert_eq!(calculate_folder_size(Some(&vec![])), "0 B");
    assert_eq!(calculate_folder_size(Some(&vec![1024, 1024])), "2.0 KB");
    assert_eq!(calculate_folder_size(None), "Unknown");
    assert_eq!(calculate_folder_size(Some(&vec![u64::MAX, 1])), "Unknown");
}

#[test]
fn total_of_file_lengths() {
    assert_eq!(total_size(&vec![1, 2, 3]), Some(6));
    assert_eq!(total_size(&vec![u64::MAX]), Some(u64::MAX));
    assert_eq!(total_size(&vec![u64::MAX, 1]), None);
}

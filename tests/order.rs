use hwmon_gtk::order::{bytes_le, sort_by_index, sort_by_name};

#[test]
fn devices_sort_by_number_not_by_text() {
    let v = vec![(10, "hwmon10"), (2, "hwmon2"), (0, "hwmon0"), (1, "hwmon1")];
    let r: Vec<&str> = sort_by_index(v).into_iter().map(|(_, n)| n).collect();
    assert_eq!(r, vec!["hwmon0", "hwmon1", "hwmon2", "hwmon10"]);
}

#[test]
fn equal_indices_keep_their_order() {
    let r = sort_by_index(vec![(1, 'a'), (0, 'b'), (1, 'c'), (0, 'd')]);
    assert_eq!(r, vec![(0, 'b'), (0, 'd'), (1, 'a'), (1, 'c')]);
    assert!(sort_by_index(Vec::<(i32, u8)>::new()).is_empty());
}

#[test]
fn sensor_files_sort_by_bytes() {
    let names = ["temp2_input", "fan1_input", "temp10_input", "in0_input", "temp1_input"];
    let v = names.iter().map(|n| (n.as_bytes().to_vec(), *n)).collect();
    let r: Vec<&str> = sort_by_name(v).into_iter().map(|(_, n)| n).collect();
    assert_eq!(r, vec!["fan1_input", "in0_input", "temp10_input", "temp1_input", "temp2_input"]);
}

#[test]
fn byte_order_is_lexicographic() {
    assert!(bytes_le(&b"abc".to_vec(), &b"abd".to_vec()));
    assert!(!bytes_le(&b"abd".to_vec(), &b"abc".to_vec()));
    assert!(bytes_le(&b"ab".to_vec(), &b"abc".to_vec()));
    assert!(!bytes_le(&b"abc".to_vec(), &b"ab".to_vec()));
    assert!(bytes_le(&Vec::new(), &Vec::new()));
    assert!(bytes_le(&b"x".to_vec(), &b"x".to_vec()));
}

use cch24::day_two::{task_1, task_2, task_3_dest, task_3_key};

#[test]
fn key_is_added_octet_by_octet() {
    assert_eq!(task_1([10, 0, 0, 0], [1, 2, 3, 255]), [11, 2, 3, 255]);
    assert_eq!(task_1([128, 128, 33, 0], [255, 0, 255, 33]), [127, 128, 32, 33]);
    assert_eq!(task_1([255, 255, 255, 255], [1, 1, 1, 1]), [0, 0, 0, 0]);
    assert_eq!(task_1([0, 0, 0, 0], [0, 0, 0, 0]), [0, 0, 0, 0]);
}

#[test]
fn key_is_the_difference_octet_by_octet() {
    assert_eq!(task_2([10, 0, 0, 0], [11, 2, 3, 255]), [1, 2, 3, 255]);
    assert_eq!(task_2([128, 128, 33, 0], [127, 128, 32, 33]), [255, 0, 255, 33]);
    assert_eq!(task_2([1, 1, 1, 1], [0, 0, 0, 0]), [255, 255, 255, 255]);
}

#[test]
fn found_key_leads_back() {
    let from = [200u8, 17, 0, 255];
    let key = [100u8, 250, 0, 1];
    assert_eq!(task_2(from, task_1(from, key)), key);
    assert_eq!(task_1(from, task_2(from, key)), key);
}

#[test]
fn v6_key_is_mixed_in_by_exclusive_or() {
    let from = [0xfe, 0x80, 0, 0, 0, 0, 0, 0, 0, 0, 0, 0, 0, 0, 0, 1];
    let key = [0, 5, 0, 6, 0, 7, 0, 0, 0, 0, 0, 0, 0, 0, 0x33, 0x33];
    let dest = [0xfe, 0x85, 0, 6, 0, 7, 0, 0, 0, 0, 0, 0, 0, 0, 0x33, 0x32];
    assert_eq!(task_3_dest(from, key), dest);
    assert_eq!(task_3_key(from, dest), key);
    let a = [0xaa, 0xaa, 0, 0, 0, 0, 0, 0, 0, 0, 0, 0, 0, 0, 0xaa, 0xaa];
    let b = [0x55, 0x55, 0xff, 0xff, 0, 0xc, 0, 0, 0, 0, 0, 0xc, 0x12, 0x34, 0x55, 0x55];
    let c = [0xff, 0xff, 0xff, 0xff, 0, 0xc, 0, 0, 0, 0, 0, 0xc, 0x12, 0x34, 0xff, 0xff];
    assert_eq!(task_3_key(a, b), c);
    assert_eq!(task_3_dest(a, c), b);
    assert_eq!(task_3_dest(a, a), [0u8; 16]);
}

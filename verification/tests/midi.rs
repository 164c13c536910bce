use tunesmith::export::midi::write_vlq;

#[test]
fn test_write_vlq() {
    let mut data = Vec::new();
    write_vlq(&mut data, 0);
    assert_eq!(data, vec![0]);

    data.clear();
    write_vlq(&mut data, 127);
    assert_eq!(data, vec![127]);

    data.clear();
    write_vlq(&mut data, 128);
    assert_eq!(data, vec![0x81, 0x00]);
}

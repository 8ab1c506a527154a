use fast_mic::seeker::Seeker;

#[test]
fn read_stops_at_the_first_zero() {
    let mut s = Seeker::new();
    s.write(7);
    s.write(8);
    s.write(0);
    s.write(9);
    let mut buf = vec![0xAA; 4];
    let r = s.read(&mut buf);
    assert_eq!(r, 2);
    assert_eq!(buf, vec![7, 8, 0xAA, 0xAA]);
}

#[test]
fn read_without_zero_copies_all_and_returns_zero() {
    let mut s = Seeker::new();
    s.write(1);
    s.write(2);
    s.write(3);
    let mut buf = vec![0xFF; 5];
    let r = s.read(&mut buf);
    assert_eq!(r, 0);
    assert_eq!(buf, vec![1, 2, 3, 0xFF, 0xFF]);
}

#[test]
fn empty_seeker_reads_nothing() {
    let s = Seeker::default();
    let mut buf = vec![5, 6];
    assert_eq!(s.read(&mut buf), 0);
    assert_eq!(buf, vec![5, 6]);
}

#[test]
fn leading_zero_reads_as_empty() {
    let mut s = Seeker::new();
    s.write(0);
    s.write(3);
    let mut buf = vec![1, 1];
    assert_eq!(s.read(&mut buf), 0);
    assert_eq!(buf, vec![1, 1]);
}

#[test]
fn read_needs_room_only_for_the_copied_part() {
    let mut s = Seeker::new();
    s.write(7);
    s.write(0);
    s.write(9);
    s.write(9);
    let mut buf = vec![0xAA];
    assert_eq!(s.read(&mut buf), 1);
    assert_eq!(buf, vec![7]);
}

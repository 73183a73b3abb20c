use ntex_driver::flags::Flags;

#[test]
fn flag_bits() {
    assert_eq!(Flags::empty().bits(), 0);
    assert_eq!(Flags::error_flag().bits(), 1);
    assert_eq!(Flags::read_flag().bits(), 2);
    assert_eq!(Flags::write_flag().bits(), 4);
    assert_eq!(Flags::read_write().bits(), 6);
}

#[test]
fn flag_insert_remove() {
    let mut f = Flags::empty();
    f.insert(Flags::read_flag());
    assert!(f.contains(Flags::read_flag()));
    assert!(!f.contains(Flags::read_write()));
    assert!(f.intersects(Flags::read_write()));
    f.insert(Flags::error_flag());
    assert_eq!(f.bits(), 3);
    f.remove(Flags::read_write());
    assert_eq!(f.bits(), 1);
    assert!(!f.intersects(Flags::read_write()));
    assert!(f.contains(Flags::empty()));
}

use dns_query::flags::{HeaderFlag, HeaderFlags};

#[test]
fn masks_are_the_documented_bits() {
    assert_eq!(HeaderFlag::Response.mask(), 0x0001);
    assert_eq!(HeaderFlag::RecursionDesired.mask(), 0x0100);
}

#[test]
fn empty_set_has_no_bits() {
    let flags = HeaderFlags::empty();
    assert_eq!(flags.bits(), 0);
    assert!(!flags.contains(HeaderFlag::Response));
    assert!(!flags.contains(HeaderFlag::RecursionDesired));
}

#[test]
fn single_flag_sets_its_own_bit_only() {
    let rd = HeaderFlags::only(HeaderFlag::RecursionDesired);
    assert_eq!(rd.bits(), 0x0100);
    assert!(rd.contains(HeaderFlag::RecursionDesired));
    assert!(!rd.contains(HeaderFlag::Response));

    let qr = HeaderFlags::only(HeaderFlag::Response);
    assert_eq!(qr.bits(), 0x0001);
    assert!(qr.contains(HeaderFlag::Response));
    assert!(!qr.contains(HeaderFlag::RecursionDesired));
}

#[test]
fn union_is_the_bitwise_or() {
    let rd = HeaderFlags::only(HeaderFlag::RecursionDesired);
    let qr = HeaderFlags::only(HeaderFlag::Response);
    let both = rd.union(qr);
    assert_eq!(both.bits(), 0x0101);
    assert!(both.contains(HeaderFlag::Response));
    assert!(both.contains(HeaderFlag::RecursionDesired));
    assert_eq!(both, qr.union(rd));
    assert_eq!(rd.union(rd), rd);
    assert_eq!(rd.union(HeaderFlags::empty()), rd);
    assert_eq!(HeaderFlags::empty().union(HeaderFlags::empty()), HeaderFlags::empty());
}

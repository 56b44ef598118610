use rnet::gfd::{Gfd, GfdSequence};

#[test]
fn test_gfd_layout() {
    assert_eq!(std::mem::size_of::<Gfd>(), 16);
    assert_eq!(std::mem::align_of::<Gfd>(), 8);
}

#[test]
fn test_gfd_packing() {
    let mut seqs = GfdSequence::new();
    let fd = 100;
    let loop_id = 5;
    let slab_index = 12345;

    let gfd = Gfd::new(fd, loop_id, slab_index, &mut seqs);

    assert_eq!(gfd.fd(), 100);
    assert_eq!(gfd.event_loop_index(), 5);
    assert_eq!(gfd.slab_index(), 12345);

    let gfd2 = Gfd::new(fd, loop_id, slab_index, &mut seqs);
    assert_ne!(gfd.sequence(), gfd2.sequence());
    assert_eq!(gfd.sequence() + 1, gfd2.sequence());
}

#[test]
fn gfd_extreme_indices_round_trip() {
    let mut seqs = GfdSequence::new();
    let g = Gfd::new(-1, 255, 0xFF_FFFF, &mut seqs);
    assert_eq!(g.fd(), -1);
    assert_eq!(g.event_loop_index(), 255);
    assert_eq!(g.slab_index(), 0xFF_FFFF);
    let h = Gfd::new(7, 0, 0, &mut seqs);
    assert_eq!(h.event_loop_index(), 0);
    assert_eq!(h.slab_index(), 0);
}

#[test]
fn gfd_validate_needs_open_fd_and_later_sequence() {
    let mut seqs = GfdSequence::new();
    let first = Gfd::new(3, 1, 1, &mut seqs);
    assert_eq!(first.sequence(), 0);
    assert!(!first.validate());
    let second = Gfd::new(3, 1, 1, &mut seqs);
    assert!(second.validate());
    let closed = Gfd::new(-1, 1, 1, &mut seqs);
    assert!(!closed.validate());
}

#[test]
fn gfd_sequence_counts_up() {
    let mut seqs = GfdSequence::new();
    assert_eq!(seqs.next(), 0);
    assert_eq!(seqs.next(), 1);
    assert_eq!(seqs.next(), 2);
}

#[test]
fn gfd_equality_compares_all_parts() {
    let mut seqs = GfdSequence::new();
    let a = Gfd::new(9, 2, 3, &mut seqs);
    let b = a;
    assert!(a == b);
    let c = Gfd::new(9, 2, 3, &mut seqs);
    assert!(a != c);
}

#[test]
fn describe_writes_numbers_in_decimal() {
    let mut seqs = GfdSequence::new();
    let g = Gfd::new(-1, 255, 0xFF_FFFF, &mut seqs);
    assert_eq!(g.describe(), "Gfd { fd: -1, seq: 0, loop: 255, index: 16777215 }");
    let h = Gfd::new(0, 0, 0, &mut seqs);
    assert_eq!(h.describe(), "Gfd { fd: 0, seq: 1, loop: 0, index: 0 }");
}

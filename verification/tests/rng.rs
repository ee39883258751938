use archon::rng::Rng;

#[test]
fn xorshift_sequence_is_reproducible() {
    let mut r = Rng::new(1);
    assert_eq!(r.next_u32(), 270369);
    let mut a = Rng::new(0x5eed);
    let mut b = Rng::new(0x5eed);
    for _ in 0..100 {
        let x = a.next_u32();
        assert_eq!(x, b.next_u32());
        assert_ne!(x, 0);
    }
}

#[test]
fn zero_seed_behaves_as_one() {
    let mut z = Rng::new(0);
    let mut one = Rng::new(1);
    assert_eq!(z.next_u32(), one.next_u32());
}

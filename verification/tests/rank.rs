use grapes::linal::rank::rank_of_bits;

fn rank(x: f32) -> i32 {
    rank_of_bits(x.to_bits())
}

#[test]
fn ranks_of_some_patterns() {
    assert_eq!(rank_of_bits(0), 0);
    assert_eq!(rank_of_bits(0x8000_0000), 0);
    assert_eq!(rank_of_bits(1), 1);
    assert_eq!(rank_of_bits(0x8000_0001), -1);
    assert_eq!(rank_of_bits(0x3F80_0000), 0x3F80_0000);
    assert_eq!(rank_of_bits(0xBF80_0000), -0x3F80_0000);
    assert_eq!(rank_of_bits(0x7FFF_FFFF), i32::MAX);
    assert_eq!(rank_of_bits(0xFFFF_FFFF), -i32::MAX);
}

#[test]
fn both_zeros_have_rank_zero() {
    assert_eq!(rank(0.0), 0);
    assert_eq!(rank(-0.0), 0);
}

#[test]
fn rank_grows_with_the_number() {
    let numbers = [
        f32::NEG_INFINITY,
        f32::MIN,
        -1.0e10,
        -2.5,
        -1.0,
        -f32::MIN_POSITIVE,
        -1.0e-45,
        0.0,
        1.0e-45,
        f32::MIN_POSITIVE,
        0.1,
        1.0,
        1.000_000_1,
        2.5,
        1.0e10,
        f32::MAX,
        f32::INFINITY,
    ];
    for a in numbers {
        for b in numbers {
            assert_eq!(a < b, rank(a) < rank(b));
            assert_eq!(a == b, rank(a) == rank(b));
        }
    }
}

#[test]
fn rank_follows_every_neighbour() {
    // walk a stretch of patterns on either side of zero and around one
    for bits in (0u32..2000).chain(0x3F7F_FF00..0x3F80_0100) {
        let (a, b) = (f32::from_bits(bits), f32::from_bits(bits + 1));
        assert!(a < b);
        assert!(rank(a) < rank(b));
        assert!(rank(-b) < rank(-a));
    }
}

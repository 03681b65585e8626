use drummix::sample::Sample;

#[test]
fn fixed_point_zero_is_silence() {
    assert_eq!(<i16 as Sample>::zero(), 0);
}

#[test]
fn clipping_add_saturates_at_both_bounds() {
    assert_eq!(30000i16.clipping_add(30000), i16::MAX);
    assert_eq!((-30000i16).clipping_add(-30000), i16::MIN);
    assert_eq!(30000i16.clipping_add(2767), i16::MAX);
    assert_eq!(30000i16.clipping_add(2766), 32766);
    assert_eq!(100i16.clipping_add(-250), -150);
    assert_eq!(0i16.clipping_add(0), 0);
}

#[test]
fn is_clipping_holds_exactly_at_the_bounds() {
    assert!(i16::MAX.is_clipping());
    assert!(i16::MIN.is_clipping());
    assert!(!(i16::MAX - 1).is_clipping());
    assert!(!(i16::MIN + 1).is_clipping());
    assert!(!0i16.is_clipping());
}

#[test]
fn scale_for_divides_rounding_half_away_from_zero() {
    assert_eq!(100i16.scale_for(1), 100);
    assert_eq!(100i16.scale_for(2), 50);
    assert_eq!(7i16.scale_for(2), 4);
    assert_eq!((-7i16).scale_for(2), -4);
    assert_eq!(i16::MIN.scale_for(2), -16384);
    assert_eq!(i16::MAX.scale_for(2), 16384);
    assert_eq!(i16::MIN.scale_for(1), i16::MIN);
    assert_eq!(i16::MAX.scale_for(1), i16::MAX);
    assert_eq!(1i16.scale_for(3), 0);
    assert_eq!((-1i16).scale_for(3), 0);
    assert_eq!(2i16.scale_for(3), 1);
    assert_eq!((-2i16).scale_for(3), -1);
}

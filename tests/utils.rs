use korodis::{Uvec2, SGR};

#[test]
fn sgr_codes_follow_ansi_numbering() {
    assert_eq!(u8::from(SGR::Reset), 0);
    assert_eq!(u8::from(SGR::Underline), 4);
    assert_eq!(u8::from(SGR::Strike), 9);
    assert_eq!(u8::from(SGR::RedFG), 31);
    assert_eq!(u8::from(SGR::WhiteBG), 47);
    assert_eq!(SGR::BrightBlackFG.code(), 90);
    assert_eq!(SGR::BrightWhiteBG.code(), 107);
}

#[test]
fn uvec2_adds_componentwise() {
    let p = Uvec2::new(3, 4).add(Uvec2::new(10, 20));
    assert_eq!(p, Uvec2::new(13, 24));
    assert_eq!(p.x, 13);
    assert_eq!(p.y, 24);
}

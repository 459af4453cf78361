//! Transform effects and the effect chain.

use osci_rs::effects::{Effect, EffectChain, Mirror, Rotate, Scale, Translate};
use osci_rs::fx::FX_ONE;

fn to_f64(v: i64) -> f64 {
    v as f64 / 1.0e6
}

// pi/2 and pi in fixed-point radians.
const FRAC_PI_2_FX: i64 = 1_570_796;
const PI_FX: i64 = 3_141_593;

#[test]
fn test_rotate_90_degrees() {
    let rotate = Rotate::new(FRAC_PI_2_FX);
    let (x, y) = rotate.apply(FX_ONE, 0, 0);
    assert!((to_f64(x) - 0.0).abs() < 0.001);
    assert!((to_f64(y) - 1.0).abs() < 0.001);
}

#[test]
fn test_rotate_180_degrees() {
    let rotate = Rotate::new(PI_FX);
    let (x, y) = rotate.apply(FX_ONE, 0, 0);
    assert!((to_f64(x) - (-1.0)).abs() < 0.001);
    assert!(to_f64(y).abs() < 0.001);
}

#[test]
fn test_scale() {
    let scale = Scale::uniform(2_000_000);
    let (x, y) = scale.apply(500_000, 500_000, 0);
    assert!((to_f64(x) - 1.0).abs() < 0.001);
    assert!((to_f64(y) - 1.0).abs() < 0.001);
}

#[test]
fn test_translate() {
    let translate = Translate::new(500_000, -500_000);
    let (x, y) = translate.apply(0, 0, 0);
    assert!((to_f64(x) - 0.5).abs() < 0.001);
    assert!((to_f64(y) - (-0.5)).abs() < 0.001);
}

#[test]
fn test_mirror() {
    let mirror = Mirror::horizontal();
    let (x, y) = mirror.apply(500_000, 300_000, 0);
    assert!((to_f64(x) - (-0.5)).abs() < 0.001);
    assert!((to_f64(y) - 0.3).abs() < 0.001);
}

#[test]
fn test_empty_chain_is_identity() {
    // An empty chain returns every input unchanged.
    let chain = EffectChain::new();
    for &(x, y, t) in &[(0i64, 0i64, 0i64), (123_456, -654_321, 42), (-1_000_000, 1_000_000, 77)] {
        assert_eq!(chain.apply(x, y, t), (x, y));
    }
}

#[test]
fn test_disabled_effect_is_skipped() {
    let mut chain = EffectChain::new();
    let mut translate = Translate::new(100_000, 0);
    translate.enabled = false;
    chain.add(Effect::Translate(translate));
    assert_eq!(chain.apply(5, 6, 0), (5, 6));
}

#[test]
fn test_chain_applies_in_order() {
    // Scale by 2 then translate by 0.1: (0.2, 0) -> (0.4, 0) -> (0.5, 0).
    let mut chain = EffectChain::new();
    chain.add(Effect::Scale(Scale::uniform(2_000_000)));
    chain.add(Effect::Translate(Translate::new(100_000, 0)));
    let (x, y) = chain.apply(200_000, 0, 0);
    assert_eq!(x, 500_000);
    assert_eq!(y, 0);
    assert_eq!(chain.len(), 2);
    assert!(!chain.is_empty());
}

#[test]
fn test_chain_remove_and_clear() {
    let mut chain = EffectChain::new();
    chain.add(Effect::Scale(Scale::uniform(2_000_000)));
    chain.add(Effect::Translate(Translate::new(100_000, 0)));
    let removed = chain.remove(0);
    assert!(removed.is_some());
    assert_eq!(chain.len(), 1);
    assert!(chain.remove(5).is_none());
    chain.clear();
    assert!(chain.is_empty());
}

#[test]
fn test_effect_names() {
    assert_eq!(Rotate::new(0).name(), "Rotate");
    assert_eq!(Scale::uniform(FX_ONE).name(), "Scale");
    assert_eq!(Translate::new(0, 0).name(), "Translate");
    assert_eq!(Mirror::vertical().name(), "Mirror");
}

#[test]
fn test_animated_rotation_uses_time() {
    // speed = pi/2 per second; after one second (1, 0) lands near (0, 1).
    let rotate = Rotate::animated(FRAC_PI_2_FX);
    let (x, y) = rotate.apply(FX_ONE, 0, FX_ONE);
    assert!((to_f64(x) - 0.0).abs() < 0.001);
    assert!((to_f64(y) - 1.0).abs() < 0.001);
    // At time zero the animated rotation is the identity.
    let (x0, y0) = rotate.apply(FX_ONE, 0, 0);
    assert!((to_f64(x0) - 1.0).abs() < 0.001);
    assert!(to_f64(y0).abs() < 0.001);
}

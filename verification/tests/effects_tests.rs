use rustriff_lib::effects::{EffectConfig, EffectType, FlipEffect};
use rustriff_lib::persistence::JsonFileAmpConfigRepository;
use std::path::PathBuf;

#[test]
fn flip_effect_starts_bypassed() {
    let fx = FlipEffect::new(3, "Flip".to_string(), "#e74c3c".to_string());
    assert_eq!(fx.id(), 3);
    assert_eq!(fx.name(), "Flip");
    assert_eq!(fx.get_color(), "#e74c3c");
    assert!(!fx.is_active());
}

#[test]
fn flip_effect_dto_reflects_state() {
    let mut fx = FlipEffect::new(1, "Flip".to_string(), "#fff".to_string());
    fx.set_active(true);
    let dto = fx.to_dto();
    assert_eq!(dto.id, 1);
    assert_eq!(dto.name, "Flip");
    assert!(dto.is_active);
    assert_eq!(dto.color, "#fff");
}

#[test]
fn effect_type_creates_flip_with_next_id() {
    let kind = EffectType::Flip(EffectConfig { name: "Inverter".to_string(), color: "#000".to_string() });
    let fx = kind.create(42);
    assert_eq!(fx.id(), 42);
    assert_eq!(fx.name(), "Inverter");
    assert_eq!(fx.get_color(), "#000");
    assert!(!fx.is_active());
}

#[test]
fn repository_keeps_its_path() {
    let repo = JsonFileAmpConfigRepository::new(PathBuf::from("/tmp/amp.json"));
    assert_eq!(repo.config_path(), &PathBuf::from("/tmp/amp.json"));
}

use sirula::config::{is_command, Config, Field, Sides};
use sirula::level::{max_level, UpdateLevel};

#[test]
fn sides_new_places_each_value() {
    let s = Sides::new(1, 2, 3, 4);
    assert_eq!(s.left, 1);
    assert_eq!(s.right, 2);
    assert_eq!(s.top, 3);
    assert_eq!(s.bottom, 4);
}

#[test]
fn default_config_values() {
    let c = Config::default();
    assert!(c.exclusive);
    assert!(c.recent_first);
    assert_eq!(c.icon_size, 64);
    assert_eq!(c.lines, 2);
    assert_eq!(c.width, -1);
    assert_eq!(c.height, -1);
    assert_eq!(c.extra_field.len(), 1);
    assert!(matches!(c.extra_field[0], Field::IdSuffix));
    assert!(c.hidden_fields.is_empty());
    assert!(c.hide_extra_if_contained);
    assert_eq!(c.command_prefix, ":");
    assert!(c.exclude.is_empty());
    assert!(c.term_command.is_none());
    assert!(!c.anchor.left && c.anchor.right && c.anchor.top && c.anchor.bottom);
    assert_eq!(c.margin.left, 0);
}

#[test]
fn command_prefix_detection() {
    assert!(is_command(":quit", ":"));
    assert!(is_command(":", ":"));
    assert!(!is_command("firefox", ":"));
    assert!(!is_command("", ":"));
    assert!(is_command("anything", ""));
}

#[test]
fn levels_escalate_by_rank() {
    assert_eq!(max_level(UpdateLevel::Idle, UpdateLevel::Invalidate), UpdateLevel::Invalidate);
    assert_eq!(max_level(UpdateLevel::Invalidate, UpdateLevel::Idle), UpdateLevel::Invalidate);
    assert_eq!(max_level(UpdateLevel::Reload, UpdateLevel::Invalidate), UpdateLevel::Reload);
    assert_eq!(max_level(UpdateLevel::Idle, UpdateLevel::Idle), UpdateLevel::Idle);
    assert_eq!(max_level(UpdateLevel::Invalidate, UpdateLevel::Reload), UpdateLevel::Reload);
}

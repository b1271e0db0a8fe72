use heartwood::attunement::keyboard::{scancode_to_char, KeyAction, Keyboard};
use heartwood::mana_pool::security_policy::{init, mark_rune_sealed, SecurityPolicy};

#[test]
fn keyboard_shift_and_keys() {
    let mut kb = Keyboard::new();
    assert_eq!(kb.on_scancode(0x1E), KeyAction::Char('a'));
    assert_eq!(kb.on_scancode(0x2A), KeyAction::Ignore);
    assert!(kb.shift_pressed());
    assert_eq!(kb.on_scancode(0x1E), KeyAction::Char('A'));
    assert_eq!(kb.on_scancode(0x28), KeyAction::Char('"'));
    assert_eq!(kb.on_scancode(0x9E), KeyAction::Ignore);
    assert_eq!(kb.on_scancode(0xAA), KeyAction::Ignore);
    assert!(!kb.shift_pressed());
    assert_eq!(kb.on_scancode(0x28), KeyAction::Char('\''));
    assert_eq!(kb.on_scancode(0x0E), KeyAction::Backspace);
    assert_eq!(kb.on_scancode(0x48), KeyAction::ArrowUp);
    assert_eq!(kb.on_scancode(0x50), KeyAction::ArrowDown);
    assert_eq!(kb.on_scancode(0x1C), KeyAction::Char('\n'));
    assert_eq!(kb.on_scancode(0x3B), KeyAction::Ignore);
    assert_eq!(scancode_to_char(0x2B, false), Some('\\'));
    assert_eq!(scancode_to_char(0x39, true), Some(' '));
}

#[test]
fn security_policy_boot_sequence() {
    let mut p = SecurityPolicy::new();
    assert!(!p.capabilities_enabled && !p.rune_sealed);
    init(&mut p);
    assert!(p.capabilities_enabled && p.wx_enforcement && p.stack_canaries_enabled);
    assert!(p.heap_canaries_enabled && p.aslr_enabled);
    assert!(!p.rune_sealed);
    mark_rune_sealed(&mut p);
    assert!(p.rune_sealed && p.aslr_enabled);
}

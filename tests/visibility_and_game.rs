use cavegen::MovementDirection::{Left, NotMoving, Right};
use cavegen::{
    is_visible, Action, AudioChannelId, ButtonId, ButtonState, GunType, Inventory, Item,
    MenuAction, MovementDirection, WorldPoint, VISIBILITY_CUTOFF,
};

fn pt(x: u64, y: u64) -> WorldPoint {
    WorldPoint { x, y }
}

#[test]
fn target_beyond_cutoff_is_hidden() {
    assert_eq!(VISIBILITY_CUTOFF, 2000);
    assert!(!is_visible(pt(0, 0), pt(2001, 0), None));
    assert!(!is_visible(pt(5000, 5000), pt(3500, 3500), None));
    assert!(!is_visible(pt(0, 0), pt(1500, 1500), None));
}

#[test]
fn target_at_cutoff_is_visible() {
    assert!(is_visible(pt(0, 0), pt(2000, 0), None));
    assert!(is_visible(pt(100, 100), pt(1300, 1700), None));
}

#[test]
fn closer_hit_occludes() {
    assert!(!is_visible(pt(0, 0), pt(100, 0), Some(pt(50, 0))));
    assert!(!is_visible(pt(10, 10), pt(10, 300), Some(pt(11, 299))));
}

#[test]
fn hit_at_or_beyond_target_does_not_occlude() {
    assert!(is_visible(pt(0, 0), pt(100, 0), Some(pt(100, 0))));
    assert!(is_visible(pt(0, 0), pt(100, 0), Some(pt(0, 100))));
    assert!(is_visible(pt(0, 0), pt(100, 0), Some(pt(150, 0))));
    assert!(is_visible(pt(0, 0), pt(100, 0), Some(pt(90_000, 3))));
}

#[test]
fn button_release_transitions() {
    let cases = [
        (ButtonState::Up, ButtonState::Up),
        (ButtonState::Down, ButtonState::Released),
        (ButtonState::Pressed, ButtonState::Released),
        (ButtonState::Released, ButtonState::Up),
    ];
    for (from, to) in cases {
        let mut s = from;
        s.upgrade();
        assert_eq!(s, to);
    }
}

#[test]
fn button_hold_transitions() {
    let cases = [
        (ButtonState::Up, ButtonState::Pressed),
        (ButtonState::Down, ButtonState::Down),
        (ButtonState::Pressed, ButtonState::Down),
        (ButtonState::Released, ButtonState::Pressed),
    ];
    for (from, to) in cases {
        let mut s = from;
        s.downgrade();
        assert_eq!(s, to);
    }
    assert_eq!(ButtonState::default(), ButtonState::Up);
}

#[test]
fn movement_directions_combine() {
    assert_eq!(MovementDirection::from_action(Action::MoveLeft), Left);
    assert_eq!(MovementDirection::from_action(Action::MoveRight), Right);
    assert_eq!(Left + Right, NotMoving);
    assert_eq!(NotMoving + Right, Right);
    assert_eq!(Left + Left, Left);
    assert_eq!(NotMoving + NotMoving, NotMoving);
    assert_eq!(!Left, Right);
    assert_eq!(!Right, Left);
    assert_eq!(!NotMoving, NotMoving);
    // Pressing right, then releasing it, stops the player.
    let d = NotMoving + MovementDirection::from_action(Action::MoveRight);
    assert_eq!(d + !MovementDirection::from_action(Action::MoveRight), NotMoving);
}

#[test]
fn inventory_holds_one_item() {
    let mut inv = Inventory::default();
    assert_eq!(inv.get_item(), None);
    assert!(inv.collect_item(Item::Grenade));
    assert!(!inv.collect_item(Item::Totem));
    assert_eq!(inv.get_item(), Some(&Item::Grenade));
    assert_eq!(inv.drop_item(), Some(Item::Grenade));
    assert_eq!(inv.drop_item(), None);
    assert!(inv.collect_item(Item::Gun(GunType::default())));
    assert_eq!(inv.get_item(), Some(&Item::Gun(GunType::Shotgun)));
}

#[test]
fn gun_cooldown() {
    assert_eq!(GunType::Shotgun.cooldown_millis(), 700);
}

#[test]
fn menu_clicks() {
    assert_eq!(ButtonId::SinglePlayer.on_click(), MenuAction::StartGame);
    assert_eq!(ButtonId::Quit.on_click(), MenuAction::Exit);
    assert_eq!(ButtonId::Settings.on_click(), MenuAction::Nothing);
    assert_eq!(ButtonId::Credits.on_click(), MenuAction::Nothing);
    assert_ne!(AudioChannelId::Music, AudioChannelId::Audio);
}

#[test]
fn button_press_is_seen_once() {
    let mut s = ButtonState::Up;
    assert!(!s.is_down());
    s.downgrade();
    assert!(s.was_pressed());
    assert!(s.is_down());
    s.downgrade();
    assert!(!s.was_pressed());
    assert!(s.is_down());
    s.upgrade();
    assert!(!s.was_pressed());
    assert!(!s.is_down());
}

#[test]
fn item_images() {
    assert_eq!(Item::Gun(GunType::Shotgun).image_path(), "images/shotgun.png");
    assert_eq!(Item::Grenade.image_path(), "images/grenade.png");
    assert_eq!(Item::Totem.image_path(), "images/totem.png");
}

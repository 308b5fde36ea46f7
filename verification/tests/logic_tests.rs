use std::sync::Arc;

use web_gpu_engine::animation::{AnimationSystem, SpriteAnimation, SpriteAnimationControllerComponent};
use web_gpu_engine::component::{CharacterState, CharacterStateComponent, Component};
use web_gpu_engine::frame::FrameClock;
use web_gpu_engine::game::GameMode;
use web_gpu_engine::gui::GuiInfo;
use web_gpu_engine::input::{CharacterUpdate, ElementState, InputHandler, KeyCode, KeyEvent};
use web_gpu_engine::physics::PhysicsSystem;
use web_gpu_engine::sprite::{SheetPosition, SpriteSheet};
use web_gpu_engine::texture::{decode_sheet, try_decode_sheet, TextureError};
use web_gpu_engine::time::Duration;
use web_gpu_engine::wgsl_preprocessor::WgslPreprocessor;

fn nanos(d: Duration) -> u128 {
    d.as_secs() as u128 * 1_000_000_000 + d.subsec_nanos() as u128
}

fn anim(start: u32, count: u32, per_nanos: u32) -> SpriteAnimation {
    SpriteAnimation {
        animation_index: 0,
        sprite_count: count,
        start_index: start,
        per_sprite_duration: Duration::new(0, per_nanos),
        current_elapsed_time: Duration::new(0, 0),
    }
}

fn sheet(width: u32, height: u32, sprite: u32) -> SpriteSheet<&'static str> {
    SpriteSheet::new(
        Arc::new("texture"),
        (width, height),
        "./assets/sheet.png".to_string(),
        None,
        sprite,
        sprite,
        true,
    )
}

// ---- time ----

#[test]
fn duration_new_carries_whole_seconds() {
    let d = Duration::new(1, 2_500_000_000);
    assert_eq!(d.as_secs(), 3);
    assert_eq!(d.subsec_nanos(), 500_000_000);
}

#[test]
fn duration_add_and_sub() {
    let a = Duration::new(1, 700_000_000);
    let b = Duration::new(0, 600_000_000);
    let s = a.add(b);
    assert_eq!((s.as_secs(), s.subsec_nanos()), (2, 300_000_000));
    let back = s.sub(b);
    assert_eq!(back, a);
    let d = Duration::new(2, 100).sub(Duration::new(0, 200));
    assert_eq!(nanos(d), 2_000_000_000 - 100);
}

#[test]
fn duration_from_millis_and_order() {
    assert_eq!(nanos(Duration::from_millis(1_250)), 1_250_000_000);
    assert!(Duration::new(1, 1).gt(&Duration::new(1, 0)));
    assert!(!Duration::new(1, 0).gt(&Duration::new(1, 0)));
    assert!(Duration::new(2, 0).gt(&Duration::new(1, 999_999_999)));
    assert_eq!(nanos(Duration::zero()), 0);
}

// ---- animation ----

#[test]
fn animation_stays_until_its_time_is_exceeded() {
    let mut a = anim(20, 10, 125_000_000);
    a.update(Duration::new(0, 125_000_000));
    assert_eq!(a.animation_index, 0);
    assert_eq!(nanos(a.current_elapsed_time), 125_000_000);
    a.update(Duration::new(0, 1));
    assert_eq!(a.animation_index, 1);
    assert_eq!(nanos(a.current_elapsed_time), 1);
    assert_eq!(a.get_sheet_index(), 21);
}

#[test]
fn animation_wraps_after_last_sprite() {
    let mut a = anim(30, 3, 100);
    a.animation_index = 2;
    a.update(Duration::new(0, 150));
    assert_eq!(a.animation_index, 0);
    assert_eq!(nanos(a.current_elapsed_time), 50);
    assert_eq!(a.get_sheet_index(), 30);
}

#[test]
fn animation_advances_one_sprite_per_update_at_most() {
    let mut a = anim(0, 10, 100);
    a.update(Duration::new(0, 1_000));
    assert_eq!(a.animation_index, 1);
    assert_eq!(nanos(a.current_elapsed_time), 900);
}

#[test]
fn controller_keeps_one_animation_per_state() {
    let mut c = SpriteAnimationControllerComponent::new();
    assert!(c.get(CharacterState::IDLE).is_none());
    assert!(c.insert(CharacterState::IDLE, anim(0, 10, 1)).is_none());
    assert!(c.insert(CharacterState::MOVE, anim(20, 10, 1)).is_none());
    let old = c.insert(CharacterState::MOVE, anim(40, 5, 1));
    assert_eq!(old.map(|a| a.start_index), Some(20));
    assert_eq!(c.get(CharacterState::MOVE).map(|a| a.start_index), Some(40));
    assert_eq!(c.get(CharacterState::IDLE).map(|a| a.start_index), Some(0));
    assert!(c.get(CharacterState::ATTACK).is_none());
    assert_eq!(c.name(), "SpriteAnimationController");
}

#[test]
fn animate_moves_the_sheet_position() {
    let mut c = SpriteAnimationControllerComponent::new();
    c.insert(CharacterState::MOVE, anim(20, 10, 100));
    c.insert(CharacterState::IDLE, anim(0, 10, 100));
    let s = sheet(320, 320, 32); // ten columns
    let p = AnimationSystem::animate(&mut c, CharacterState::MOVE, &s, Duration::new(0, 101));
    assert_eq!(p, Some(SheetPosition { x: 1, y: 2 }));
    assert_eq!(c.get(CharacterState::MOVE).unwrap().animation_index, 1);
    assert_eq!(c.get(CharacterState::IDLE).unwrap().animation_index, 0);
    let none = AnimationSystem::animate(&mut c, CharacterState::ATTACK, &s, Duration::new(0, 101));
    assert_eq!(none, None);
}

#[test]
fn component_names() {
    let c = CharacterStateComponent { character_state: CharacterState::ATTACK };
    assert_eq!(c.name(), "Position");
}

// ---- sprite sheet ----

#[test]
fn sheet_position_is_row_major() {
    let s = sheet(640, 128, 32); // twenty columns
    assert_eq!(s.get_position_by_index(0), SheetPosition { x: 0, y: 0 });
    assert_eq!(s.get_position_by_index(19), SheetPosition { x: 19, y: 0 });
    assert_eq!(s.get_position_by_index(20), SheetPosition { x: 0, y: 1 });
    assert_eq!(s.get_position_by_index(45), SheetPosition { x: 5, y: 2 });
}

#[test]
fn sheet_columns_round_down() {
    let s = sheet(100, 100, 48); // two columns
    assert_eq!(s.get_position_by_index(5), SheetPosition { x: 1, y: 2 });
}

#[test]
fn sheet_texture_and_resize() {
    let first = Arc::new("first");
    let mut s = SpriteSheet::new(
        first.clone(),
        (64, 32),
        "a.png".to_string(),
        Some("a_n.png".to_string()),
        16,
        8,
        false,
    );
    assert!(Arc::ptr_eq(&s.texture(), &first));
    let second = Arc::new("second");
    s.resize(second.clone());
    assert!(Arc::ptr_eq(&s.texture(), &second));
    assert_eq!(s.dimensions(), (64, 32));
    assert_eq!(s.sprite_width(), 16);
    assert_eq!(s.sprite_height(), 8);
    assert_eq!(s.texture_path(), "a.png");
    assert_eq!(s.normal_path(), Some("a_n.png"));
    assert!(!s.manual_premultiply());
}

// ---- shader preprocessing ----

#[test]
fn include_is_replaced_by_file() {
    let p = WgslPreprocessor::new(vec![
        ("main.wgsl", "//#include common.wgsl\nfn main() {}"),
        ("common.wgsl", "const A: f32 = 1.0;"),
    ]);
    assert_eq!(p.get_code("main.wgsl".to_string()), "const A: f32 = 1.0;\nfn main() {}");
    assert_eq!(p.get_code("common.wgsl".to_string()), "const A: f32 = 1.0;");
}

#[test]
fn nested_includes_expand() {
    let p = WgslPreprocessor::new(vec![
        ("a", "//#include b\na"),
        ("b", "//#include c\nb"),
        ("c", "c"),
    ]);
    assert_eq!(p.get_code("a".to_string()), "c\nb\na");
}

#[test]
fn missing_include_becomes_empty_line() {
    let p = WgslPreprocessor::new(vec![("a", "x\n//#include nowhere\ny")]);
    assert_eq!(p.get_code("a".to_string()), "x\n\ny");
}

#[test]
fn line_endings_are_normalised() {
    let p = WgslPreprocessor::new(vec![("a", "x\r\ny\n"), ("b", "p\n\nq\r")]);
    assert_eq!(p.get_code("a".to_string()), "x\ny");
    assert_eq!(p.get_code("b".to_string()), "p\n\nq\r");
}

#[test]
fn indented_directive_is_sliced_after_ten_bytes() {
    // The directive is recognised after trimming, but the file name is taken
    // from the untrimmed line after its first ten bytes.
    let p = WgslPreprocessor::new(vec![
        ("a", "  //#include b"),
        ("de b", "got it"),
        ("b", "wrong"),
    ]);
    assert_eq!(p.get_code("a".to_string()), "got it");
}

#[test]
fn directive_with_trailing_spaces() {
    let p = WgslPreprocessor::new(vec![("a", "//#include   b   \t"), ("b", "B")]);
    assert_eq!(p.get_code("a".to_string()), "B");
}

#[test]
fn empty_file_stays_empty() {
    let p = WgslPreprocessor::new(vec![("a", ""), ("b", "\n")]);
    assert_eq!(p.get_code("a".to_string()), "");
    assert_eq!(p.get_code("b".to_string()), "");
}

// ---- physics ----

#[test]
fn physics_counts_ticks_outside_popups() {
    let mut p = PhysicsSystem::new(Duration::from_millis(20));
    assert_eq!(p.ticks_elapsed(), 0);
    assert_eq!(nanos(p.tick_duration()), 20_000_000);
    assert!(p.begin_update(GameMode::STANDARD));
    assert!(!p.begin_update(GameMode::POPUP));
    assert!(p.begin_update(GameMode::STANDARD));
    assert_eq!(p.ticks_elapsed(), 2);
}

#[test]
fn grounded_character_may_jump() {
    let u = PhysicsSystem::ground_step(Some(Duration::new(1, 0)), true, Duration::new(5, 0));
    assert_eq!(u.last_grounded_time, None);
    assert_eq!(u.can_jump, Some(true));
}

#[test]
fn coyote_time_in_the_air() {
    let now = Duration::new(10, 0);
    let first = PhysicsSystem::ground_step(None, false, now);
    assert_eq!(first.last_grounded_time, Some(now));
    assert_eq!(first.can_jump, None);
    let later = PhysicsSystem::ground_step(first.last_grounded_time, false, Duration::new(10, 300_000_000));
    assert_eq!(later.can_jump, None);
    let too_late =
        PhysicsSystem::ground_step(first.last_grounded_time, false, Duration::new(10, 300_000_001));
    assert_eq!(too_late.can_jump, Some(false));
    assert_eq!(too_late.last_grounded_time, Some(now));
    assert_eq!(nanos(PhysicsSystem::coyote_time()), 300_000_000);
}

// ---- frame clock ----

#[test]
fn frame_clock_runs_fixed_updates() {
    let mut c = FrameClock::new();
    let s = c.on_frame(Duration::from_millis(20));
    assert_eq!(nanos(s.delta_time), 20_000_000);
    assert_eq!(s.fixed_updates, 0); // exactly one update's time is not more than it
    let s = c.on_frame(Duration::from_millis(41));
    assert_eq!(nanos(s.delta_time), 21_000_000);
    assert_eq!(s.fixed_updates, 2); // 41 ms owed: two updates, 1 ms left
    let s = c.on_frame(Duration::from_millis(101));
    assert_eq!(s.fixed_updates, 3); // 61 ms owed: three updates, 1 ms left
    let s = c.on_frame(Duration::from_millis(120));
    assert_eq!(s.fixed_updates, 0); // 20 ms owed: not more than one update's time
    assert_eq!(nanos(FrameClock::fixed_update_duration()), 20_000_000);
}

#[test]
fn frame_clock_accepts_only_forward_time() {
    let mut c = FrameClock::new();
    assert!(c.accepts(Duration::from_millis(5)));
    c.on_frame(Duration::from_millis(5));
    assert!(!c.accepts(Duration::from_millis(4)));
    assert!(c.accepts(Duration::from_millis(5)));
}

#[test]
fn duration_sum_fits() {
    let max = Duration::new(u64::MAX, 999_999_999);
    assert!(!max.fits_sum(&Duration::new(0, 1)));
    assert!(max.fits_sum(&Duration::zero()));
    assert!(Duration::new(u64::MAX - 1, 999_999_999).fits_sum(&Duration::new(1, 0)));
    assert!(!Duration::new(u64::MAX - 1, 999_999_999).fits_sum(&Duration::new(1, 1)));
}

#[test]
fn frame_clock_counts_frames_per_second() {
    let mut c = FrameClock::new();
    for ms in [100u64, 500, 900, 1000] {
        c.on_frame(Duration::from_millis(ms));
    }
    assert_eq!(c.last_fps(), 0); // one second has not been exceeded yet
    c.on_frame(Duration::from_millis(1001));
    assert_eq!(c.last_fps(), 5);
    c.on_frame(Duration::from_millis(1500));
    c.on_frame(Duration::from_millis(2500));
    assert_eq!(c.last_fps(), 2);
}

// ---- input ----

fn press(k: KeyCode) -> KeyEvent {
    KeyEvent { state: ElementState::Pressed, physical_key: k }
}

fn release(k: KeyCode) -> KeyEvent {
    KeyEvent { state: ElementState::Released, physical_key: k }
}

const IDLE: CharacterUpdate = CharacterUpdate { character_state: CharacterState::IDLE, is_flipped: None };

#[test]
fn moving_left_then_stopping() {
    let mut h = InputHandler::new();
    let mut mode = GameMode::STANDARD;
    let r = h.handle_key_state(&press(KeyCode::ArrowLeft), &mut mode, &[]);
    assert!(h.left_pressed);
    assert_eq!(
        r.character_updates,
        vec![CharacterUpdate { character_state: CharacterState::MOVE, is_flipped: Some(false) }]
    );
    let r = h.handle_key_state(&release(KeyCode::KeyA), &mut mode, &[]);
    assert!(!h.left_pressed);
    assert_eq!(r.character_updates, vec![IDLE]);
    assert_eq!(mode, GameMode::STANDARD);
}

#[test]
fn moving_right_faces_right() {
    let mut h = InputHandler::new();
    let mut mode = GameMode::STANDARD;
    let r = h.handle_key_state(&press(KeyCode::KeyD), &mut mode, &[]);
    assert!(h.right_pressed);
    assert_eq!(
        r.character_updates,
        vec![CharacterUpdate { character_state: CharacterState::MOVE, is_flipped: Some(true) }]
    );
}

#[test]
fn jump_key_and_idle() {
    let mut h = InputHandler::new();
    let mut mode = GameMode::STANDARD;
    let r = h.handle_key_state(&press(KeyCode::KeyW), &mut mode, &[]);
    assert!(h.up_pressed);
    assert_eq!(r.character_updates, vec![IDLE]);
    let r = h.handle_key_state(&press(KeyCode::ArrowDown), &mut mode, &[]);
    assert!(h.down_pressed);
    assert_eq!(r.character_updates, vec![IDLE]);
    h.handle_key_state(&release(KeyCode::ArrowUp), &mut mode, &[]);
    assert!(!h.up_pressed && h.down_pressed);
}

#[test]
fn reading_a_sign_opens_a_popup() {
    let mut h = InputHandler::new();
    let mut mode = GameMode::STANDARD;
    let r = h.handle_key_state(&press(KeyCode::KeyX), &mut mode, &[false, true, true, false]);
    assert_eq!(r.popup_sign, Some(2));
    assert_eq!(mode, GameMode::POPUP);
    let r = h.handle_key_state(&press(KeyCode::KeyX), &mut GameMode::STANDARD, &[false, false]);
    assert_eq!(r.popup_sign, None);
}

#[test]
fn popup_releases_keys_until_escape() {
    let mut h = InputHandler { up_pressed: true, down_pressed: true, left_pressed: true, right_pressed: false };
    let mut mode = GameMode::POPUP;
    let r = h.handle_key_state(&press(KeyCode::KeyD), &mut mode, &[true]);
    assert_eq!(h, InputHandler::new());
    assert_eq!(r.character_updates, vec![IDLE]);
    assert_eq!(r.popup_sign, None);
    assert_eq!(mode, GameMode::POPUP);
    h.handle_key_state(&release(KeyCode::Escape), &mut mode, &[]);
    assert_eq!(mode, GameMode::POPUP);
    h.handle_key_state(&press(KeyCode::Escape), &mut mode, &[]);
    assert_eq!(mode, GameMode::STANDARD);
}

#[test]
fn gui_info_holds_figures() {
    let info = GuiInfo { fps: 60, notes_collected: 3 };
    assert_eq!(info.fps + info.notes_collected, 63);
}

// ---- shader include checks ----

#[test]
fn try_new_refuses_cycles() {
    assert!(WgslPreprocessor::try_new(vec![("a", "//#include b"), ("b", "//#include a")]).is_none());
    assert!(WgslPreprocessor::try_new(vec![("a", "x\n//#include a")]).is_none());
}

#[test]
fn try_new_refuses_unsliceable_include() {
    // Three ideographic spaces and a next-line mark take eleven bytes, so
    // byte ten falls inside a character.
    let line = "\u{3000}\u{3000}\u{3000}\u{85}//#include b";
    assert!(WgslPreprocessor::try_new(vec![("a", line), ("b", "B")]).is_none());
}

#[test]
fn try_new_expands_like_new() {
    let p = WgslPreprocessor::try_new(vec![("a", "//#include b\n//#include c"), ("b", "//#include c"), ("c", "C")])
        .expect("no cycle");
    assert_eq!(p.get_code("a".to_string()), "C\nC");
    assert_eq!(p.get_code("b".to_string()), "C");
}

#[test]
fn missing_includes_are_listed_once() {
    let files = vec![
        ("a", "//#include x\n//#include b\n//#include x"),
        ("b", "//#include y\nplain"),
    ];
    let mut missing = web_gpu_engine::wgsl_preprocessor::missing_includes(&files);
    missing.sort();
    assert_eq!(missing, vec!["x".to_string(), "y".to_string()]);
    assert!(web_gpu_engine::wgsl_preprocessor::missing_includes(&vec![("a", "//#include a")]).is_empty());
}

#[test]
fn trim_bounds_of_flags() {
    let b = web_gpu_engine::wgsl_preprocessor::trim_bounds_of(&[true, false, true, false, true, true]);
    assert_eq!(b, (1, 4));
    assert_eq!(web_gpu_engine::wgsl_preprocessor::trim_bounds_of(&[true, true]), (2, 2));
}

// ---- image decoding ----

fn png(width: u32, height: u32, rgba: Vec<u8>) -> Vec<u8> {
    let img = image::DynamicImage::ImageRgba8(image::RgbaImage::from_raw(width, height, rgba).unwrap());
    let mut bytes = Vec::new();
    img.write_to(&mut std::io::Cursor::new(&mut bytes), image::ImageOutputFormat::Png).unwrap();
    bytes
}

#[test]
fn sheet_decodes_image_and_normal_map() {
    let texture = png(2, 1, vec![1, 2, 3, 4, 5, 6, 7, 8]);
    let normal = png(2, 1, vec![9, 9, 9, 255, 8, 8, 8, 255]);
    let sheet = decode_sheet(&texture, Some(&normal)).ok().unwrap();
    assert_eq!((sheet.texture.width, sheet.texture.height), (2, 1));
    assert_eq!(sheet.texture.rgba, vec![1, 2, 3, 4, 5, 6, 7, 8]);
    assert_eq!(sheet.normal.unwrap().rgba, vec![9, 9, 9, 255, 8, 8, 8, 255]);
    let no_normal = decode_sheet(&texture, Some(b"not an image")).ok().unwrap();
    assert!(no_normal.normal.is_none());
    assert!(decode_sheet(&texture, None).ok().unwrap().normal.is_none());
}

#[test]
fn undecodable_image_is_an_error() {
    let r = decode_sheet(b"not an image", None);
    assert!(matches!(r, Err(TextureError::Decode(_))));
}

#[test]
fn normal_map_of_another_size_is_refused() {
    let texture = png(2, 1, vec![0; 8]);
    let normal = png(1, 1, vec![0; 4]);
    assert!(try_decode_sheet(&texture, Some(&normal)).is_none());
    assert!(try_decode_sheet(&texture, Some(&texture)).is_some());
    assert!(try_decode_sheet(b"junk", Some(&normal)).unwrap().is_err());
}

#[test]
fn white_space_agrees_with_char_is_whitespace() {
    for u in 0u32..=0x10FFFF {
        if let Some(c) = char::from_u32(u) {
            assert_eq!(web_gpu_engine::wgsl_preprocessor::is_white_space(c), c.is_whitespace(), "{:#x}", u);
        }
    }
}

#[test]
fn unicode_spaces_are_trimmed_around_an_include() {
    let p = WgslPreprocessor::new(vec![
        ("a", "//#include b\u{3000}\u{2003}\n//#include\u{2003}b\u{85}"),
        ("b", "B"),
    ]);
    assert_eq!(p.get_code("a".to_string()), "B\nB");
}

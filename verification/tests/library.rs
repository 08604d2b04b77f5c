use blitz_cipher::collision::{column_blocks, reaches_floor, span_hits_terrain};
use blitz_cipher::color::{darken, Color};
use blitz_cipher::game::{
    countdown_sound, hit_sound, score_rows, CheatState, ConfigAction, ConfigState, GamePhase, NameEntry, SoundEffect,
};
use blitz_cipher::input::{GamepadState, InputState, KeyEventKind};
use blitz_cipher::keybinds::{keycode_name, keycode_to_string, string_to_keycode, KeyBindings, KeyCode};
use blitz_cipher::parallax::{MountainLayer, StarField};
use blitz_cipher::renderer::{FgCell, HalfPixel, Renderer, TermCell, HALF_BLOCK};
use blitz_cipher::save::{escape_json, HighScoreEntry, SaveData};
use blitz_cipher::menu_text::{cheat_row, config_row, status_gap_width, status_top_line, RowStyle};
use blitz_cipher::spawn::plan_spawns;
use blitz_cipher::sprites::{enemy_sprite, explosion_sprite, ship_sprite};
use blitz_cipher::stages::{
    display_stage, formation_wave_group, score_value, stage_difficulty, stage_enemies, stage_index,
    EnemyPlacement, EnemyType, UfoPattern, ZoneType,
};
use blitz_cipher::terrain::{
    build_zone_columns, get_edge_decoration, get_surface_palette, shape_column, Terrain, TerrainColumn,
};

fn entry(name: &str, score: u32, stage: usize) -> HighScoreEntry {
    HighScoreEntry { name: name.to_string(), score, stage }
}

fn table(scores: &[u32]) -> SaveData {
    let mut d = SaveData::default();
    for (i, s) in scores.iter().enumerate() {
        d.high_scores.push(entry("AAA", *s, i + 1));
    }
    d
}

// ---------------------------------------------------------------- colours

#[test]
fn darken_divides_channels_by_three() {
    assert_eq!(darken(Color::Rgb { r: 40, g: 120, b: 41 }), Color::Rgb { r: 13, g: 40, b: 13 });
    assert_eq!(darken(Color::White), Color::Black);
    assert_eq!(darken(Color::Reset), Color::Black);
}

// ---------------------------------------------------------------- key bindings

#[test]
fn default_bindings() {
    let b = KeyBindings::default();
    assert_eq!(b.get(0), KeyCode::Up);
    assert_eq!(b.get(4), KeyCode::Char('z'));
    assert_eq!(b.get(5), KeyCode::Char('x'));
    assert_eq!(b.get(6), KeyCode::Char('q'));
    assert_eq!(b.get(7), KeyCode::Char('r'));
    assert_eq!(b.get(8), KeyCode::Null);
}

#[test]
fn set_then_get_binding() {
    let mut b = KeyBindings::default();
    b.set(2, KeyCode::Char('a'));
    assert_eq!(b.get(2), KeyCode::Char('a'));
    assert_eq!(b.get(1), KeyCode::Down);
    assert_eq!(b.get(3), KeyCode::Right);
    let before = b;
    b.set(9, KeyCode::Tab);
    assert_eq!(b, before);
}

#[test]
fn key_texts() {
    assert_eq!(keycode_to_string(KeyCode::Up), "Up");
    assert_eq!(keycode_to_string(KeyCode::PageDown), "PageDown");
    assert_eq!(keycode_to_string(KeyCode::Char(' ')), "Space");
    assert_eq!(keycode_to_string(KeyCode::Char('z')), "Char:z");
    assert_eq!(keycode_to_string(KeyCode::F(12)), "F:12");
    assert_eq!(keycode_to_string(KeyCode::F(0)), "F:0");
    assert_eq!(keycode_to_string(KeyCode::Null), "Unknown");
    assert_eq!(keycode_to_string(KeyCode::Other(3)), "Unknown");
}

#[test]
fn key_texts_read_back() {
    assert_eq!(string_to_keycode("Esc"), Some(KeyCode::Esc));
    assert_eq!(string_to_keycode("Space"), Some(KeyCode::Char(' ')));
    assert_eq!(string_to_keycode("Char:q"), Some(KeyCode::Char('q')));
    assert_eq!(string_to_keycode("Char:xy"), Some(KeyCode::Char('x')));
    assert_eq!(string_to_keycode("Char:"), None);
    assert_eq!(string_to_keycode("F:7"), Some(KeyCode::F(7)));
    assert_eq!(string_to_keycode("F:007"), Some(KeyCode::F(7)));
    assert_eq!(string_to_keycode("F:+5"), Some(KeyCode::F(5)));
    assert_eq!(string_to_keycode("F:255"), Some(KeyCode::F(255)));
    assert_eq!(string_to_keycode("F:256"), None);
    assert_eq!(string_to_keycode("F:-1"), None);
    assert_eq!(string_to_keycode("F:"), None);
    assert_eq!(string_to_keycode("up"), None);
    assert_eq!(string_to_keycode("Unknown"), None);
}

#[test]
fn key_text_round_trip() {
    let keys = [
        KeyCode::Up, KeyCode::Down, KeyCode::Left, KeyCode::Right, KeyCode::Enter, KeyCode::Esc,
        KeyCode::Backspace, KeyCode::Tab, KeyCode::Delete, KeyCode::Insert, KeyCode::Home, KeyCode::End,
        KeyCode::PageUp, KeyCode::PageDown, KeyCode::Char(' '), KeyCode::Char('a'), KeyCode::Char('\u{e9}'),
        KeyCode::F(1), KeyCode::F(99), KeyCode::F(255),
    ];
    for k in keys {
        assert_eq!(string_to_keycode(&keycode_to_string(k)), Some(k));
    }
}

#[test]
fn key_names() {
    assert_eq!(keycode_name(KeyCode::Up), "\u{2191}");
    assert_eq!(keycode_name(KeyCode::Right), "\u{2192}");
    assert_eq!(keycode_name(KeyCode::Backspace), "Bksp");
    assert_eq!(keycode_name(KeyCode::PageUp), "PgUp");
    assert_eq!(keycode_name(KeyCode::Char(' ')), "Space");
    assert_eq!(keycode_name(KeyCode::Char('z')), "Z");
    assert_eq!(keycode_name(KeyCode::Char('5')), "5");
    assert_eq!(keycode_name(KeyCode::Char('\u{df}')), "SS");
    assert_eq!(keycode_name(KeyCode::F(10)), "F10");
    assert_eq!(keycode_name(KeyCode::Null), "None");
    assert_eq!(keycode_name(KeyCode::Modifier(1)), "???");
}

// ---------------------------------------------------------------- high scores

#[test]
fn zero_score_never_qualifies() {
    assert_eq!(table(&[]).qualifies(0), None);
}

#[test]
fn qualifying_ranks() {
    assert_eq!(table(&[]).qualifies(10), Some(0));
    assert_eq!(table(&[500, 300, 100]).qualifies(400), Some(1));
    assert_eq!(table(&[500, 300, 100]).qualifies(300), Some(2));
    assert_eq!(table(&[500, 300, 100]).qualifies(50), Some(3));
    let full = table(&[100, 90, 80, 70, 60, 50, 40, 30, 20, 10]);
    assert_eq!(full.qualifies(10), None);
    assert_eq!(full.qualifies(11), Some(9));
    assert_eq!(full.qualifies(1000), Some(0));
}

#[test]
fn insert_keeps_ten_best_in_order() {
    let mut d = table(&[100, 90, 80, 70, 60, 50, 40, 30, 20, 10]);
    let rank = d.qualifies(75).unwrap();
    assert_eq!(rank, 3);
    d.insert(rank, "BOB".to_string(), 75, 4);
    assert_eq!(d.high_scores.len(), 10);
    let scores: Vec<u32> = d.high_scores.iter().map(|e| e.score).collect();
    assert_eq!(scores, vec![100, 90, 80, 75, 70, 60, 50, 40, 30, 20]);
    assert_eq!(d.high_scores[3].name, "BOB");
    assert_eq!(d.high_scores[3].stage, 4);
}

#[test]
fn top_score_of_table() {
    assert_eq!(table(&[]).top_score(), 0);
    assert_eq!(table(&[700, 20]).top_score(), 700);
}

#[test]
fn escaping() {
    assert_eq!(escape_json("plain"), "plain");
    assert_eq!(escape_json("a\"b"), "a\\\"b");
    assert_eq!(escape_json("a\\b"), "a\\\\b");
    assert_eq!(escape_json("\\\""), "\\\\\\\"");
}

#[test]
fn save_file_text() {
    let mut d = SaveData::default();
    d.high_scores.push(entry("ACE", 1200, 3));
    d.high_scores.push(entry("BO", 80, 1));
    let expected = "{\n  \"high_scores\": [\n    { \"name\": \"ACE\", \"score\": 1200, \"stage\": 3 },\n    { \"name\": \"BO\", \"score\": 80, \"stage\": 1 }\n  ],\n  \"keybindings\": [\n    \"Up\",\n    \"Down\",\n    \"Left\",\n    \"Right\",\n    \"Char:z\",\n    \"Char:x\",\n    \"Char:q\",\n    \"Char:r\"\n  ]\n}\n";
    assert_eq!(d.to_json(), expected);
}

#[test]
fn save_file_round_trip() {
    let mut d = SaveData::default();
    d.high_scores.push(entry("ACE", 1200, 3));
    d.high_scores.push(entry("ZZ", 4294967295, 12));
    d.keybindings.set(0, KeyCode::Char('w'));
    d.keybindings.set(4, KeyCode::F(5));
    d.keybindings.set(6, KeyCode::Esc);
    let back = SaveData::parse(&d.to_json()).unwrap();
    assert_eq!(back.high_scores.len(), 2);
    assert_eq!(back.high_scores[0].name, "ACE");
    assert_eq!(back.high_scores[0].score, 1200);
    assert_eq!(back.high_scores[0].stage, 3);
    assert_eq!(back.high_scores[1].name, "ZZ");
    assert_eq!(back.high_scores[1].score, 4294967295);
    assert_eq!(back.high_scores[1].stage, 12);
    assert_eq!(back.keybindings, d.keybindings);
}

#[test]
fn unreadable_file_gives_defaults() {
    let d = SaveData::parse("not json at all").unwrap();
    assert!(d.high_scores.is_empty());
    assert_eq!(d.keybindings, KeyBindings::default());
}

#[test]
fn parse_keeps_ten_and_skips_bad_entries() {
    let mut text = String::from("{\"high_scores\": [");
    for i in 0..12 {
        text.push_str(&format!("{{\"name\": \"N{}\", \"score\": {}, \"stage\": 1}},", i, 100 - i));
    }
    text.push_str("{\"name\": \"BAD\"}]}");
    let d = SaveData::parse(&text).unwrap();
    assert_eq!(d.high_scores.len(), 10);
    assert_eq!(d.high_scores[0].name, "N0");
    assert_eq!(d.high_scores[9].score, 91);
}

#[test]
fn parse_reads_known_keys_only() {
    let text = "{\"keybindings\": [\"Char:w\", \"Bogus\", \"F:3\"]}";
    let d = SaveData::parse(text).unwrap();
    assert_eq!(d.keybindings.get(0), KeyCode::Char('w'));
    assert_eq!(d.keybindings.get(1), KeyCode::Down);
    assert_eq!(d.keybindings.get(2), KeyCode::F(3));
    assert_eq!(d.keybindings.get(3), KeyCode::Right);
}

#[test]
fn score_entry_fields() {
    let e = SaveData::parse_score_entry(" \"name\": \"LONGNAME\", \"score\":   42, \"stage\": 7 ").unwrap();
    assert_eq!(e.name, "LON");
    assert_eq!(e.score, 42);
    assert_eq!(e.stage, 7);
    let wrapped = SaveData::parse_score_entry("\"name\":\"X\",\"score\":4294967297,\"stage\":1").unwrap();
    assert_eq!(wrapped.score, 1);
    assert!(SaveData::parse_score_entry("\"name\":\"X\",\"score\":-,\"stage\":1").is_none());
    assert!(SaveData::parse_score_entry("\"score\":1,\"stage\":1").is_none());
}

#[test]
fn field_extraction() {
    assert_eq!(SaveData::extract_string_field("{\"a\": \"hi\"}", "a"), Some("hi".to_string()));
    assert_eq!(SaveData::extract_string_field("{\"a\": 5}", "a"), None);
    assert_eq!(SaveData::extract_number_field("\"n\":\t\n-17x", "n"), Some(-17));
    assert_eq!(SaveData::extract_number_field("\"n\": 9223372036854775807", "n"), Some(i64::MAX));
    assert_eq!(SaveData::extract_number_field("\"n\": -9223372036854775808", "n"), Some(i64::MIN));
    assert_eq!(SaveData::extract_number_field("\"n\": 9223372036854775808", "n"), None);
    assert_eq!(SaveData::extract_number_field("\"n\": 1-2", "n"), None);
    assert_eq!(SaveData::extract_number_field("\"m\": 1", "n"), None);
}

// ---------------------------------------------------------------- stages

#[test]
fn enemy_score_values() {
    assert_eq!(score_value(EnemyType::Rocket, UfoPattern::SineWave), 50);
    assert_eq!(score_value(EnemyType::Ufo, UfoPattern::Charger), 200);
    assert_eq!(score_value(EnemyType::Ufo, UfoPattern::Meteor), 80);
    assert_eq!(score_value(EnemyType::FuelTank, UfoPattern::SineWave), 150);
    assert_eq!(score_value(EnemyType::Turret, UfoPattern::ZSweep), 80);
}

#[test]
fn stage_numbering() {
    assert_eq!(stage_index(1), 0);
    assert_eq!(stage_index(6), 5);
    assert_eq!(stage_index(7), 0);
    assert_eq!(stage_index(0), 0);
    assert_eq!(stage_difficulty(6), 0);
    assert_eq!(stage_difficulty(13), 2);
    assert_eq!(display_stage(8), 2);
}

#[test]
fn formation_group_columns() {
    let g = formation_wave_group(10, 100);
    let cols: Vec<usize> = g.iter().map(|p| p.col_offset).collect();
    assert_eq!(cols, vec![10, 14, 18, 22]);
    let slots: Vec<usize> = g.iter().map(|p| p.formation_slot).collect();
    assert_eq!(slots, vec![0, 1, 2, 3]);
    assert!(g.iter().all(|p| p.ufo_pattern == UfoPattern::FormationWave && p.enemy_type == EnemyType::Ufo));
    let clipped = formation_wave_group(95, 100);
    let cols: Vec<usize> = clipped.iter().map(|p| p.col_offset).collect();
    assert_eq!(cols, vec![95, 99, 99, 99]);
}

#[test]
fn first_stage_layout() {
    let total = 900;
    let e = stage_enemies(0, total, 65);
    // 65 main-run slots (all placed) then max(900 / 150, 4) = 6 fuel tanks.
    assert_eq!(e.len(), 71);
    assert_eq!(e[0], EnemyPlacement::rocket(20));
    assert_eq!(e[1].col_offset, 20 + 860 / 65);
    assert_eq!(e[1].enemy_type, EnemyType::Ufo);
    let fuel: Vec<usize> = e[65..].iter().map(|p| p.col_offset).collect();
    assert_eq!(fuel, vec![128, 257, 385, 514, 642, 771]);
    assert!(e[65..].iter().all(|p| p.enemy_type == EnemyType::FuelTank && p.on_floor));
    assert!(e.iter().all(|p| p.col_offset < total));
    assert!(e.iter().any(|p| p.ufo_pattern == UfoPattern::Meteor && p.near_top));
}

#[test]
fn cavern_stage_has_formations() {
    let total = 800;
    let e = stage_enemies(2, total, 55);
    let wings: Vec<&EnemyPlacement> = e.iter().filter(|p| p.ufo_pattern == UfoPattern::FormationWave).collect();
    // The 50-75% section is 200 columns: max(200 / 60, 2) = 3 groups of 4.
    assert_eq!(wings.len(), 12);
    assert_eq!(wings[0].col_offset, 400);
    assert_eq!(wings[4].col_offset, 400 + 200 / 3);
    assert!(e.iter().any(|p| p.enemy_type == EnemyType::Turret));
    assert!(e.iter().all(|p| p.col_offset < total));
}

#[test]
fn fuel_depot_is_generous() {
    let e = stage_enemies(4, 750, 50);
    let fuel = e.iter().filter(|p| p.enemy_type == EnemyType::FuelTank).count();
    assert_eq!(fuel, 7);
}

// ---------------------------------------------------------------- terrain

#[test]
fn palettes_and_edges() {
    assert_eq!(get_surface_palette(ZoneType::Mountains), ['\u{2588}', '\u{2593}', '#']);
    assert_eq!(get_surface_palette(ZoneType::BossApproach), ['\u{2593}', '\u{2588}', '#']);
    assert_eq!(get_edge_decoration(ZoneType::OpenSky, true, 3), '_');
    assert_eq!(get_edge_decoration(ZoneType::OpenSky, false, 5), '\u{2663}');
    assert_eq!(get_edge_decoration(ZoneType::NarrowCave, true, 7), 'v');
    assert_eq!(get_edge_decoration(ZoneType::FuelDepot, false, 8), '\u{203e}');
    assert_eq!(get_edge_decoration(ZoneType::RocketBase, true, 9), '_');
}

#[test]
fn columns_keep_a_corridor() {
    assert_eq!(shape_column(3, 4, 30), (3, 4));
    assert_eq!(shape_column(40, 0, 30), (15, 0));
    assert_eq!(shape_column(14, 14, 30), (14, 12));
    assert_eq!(shape_column(14, 10, 20), (10, 6));
    assert_eq!(shape_column(9, 2, 20), (9, 2));
    assert_eq!(shape_column(9, 8, 20), (8, 8));
    assert_eq!(shape_column(3, 3, 6), (3, 0));
    for c in 0..30 {
        for f in 0..30 {
            let (a, b) = shape_column(c, f, 24);
            assert!(a + b + 4 <= 24 && a <= 12 && b <= 12);
        }
    }
}

#[test]
fn zone_columns() {
    let cols = build_zone_columns(ZoneType::CaveEntrance, Color::White, Color::Black, 7, &vec![(2, 3), (50, 50)], 20);
    assert_eq!(cols.len(), 2);
    assert_eq!((cols[0].ceiling, cols[0].floor), (2, 3));
    assert_eq!((cols[1].ceiling, cols[1].floor), (10, 6));
    assert_eq!(cols[0].surface_char, '\u{2588}');
    assert_eq!(cols[1].surface_palette, ['\u{2592}', '\u{2591}', '\u{b7}']);
}

fn flat(floors: &[usize]) -> Terrain {
    let mut t = Terrain::new();
    for f in floors {
        let mut c = TerrainColumn::default();
        c.floor = *f;
        t.columns.push(c);
    }
    t
}

#[test]
fn leveling_floor() {
    let mut t = flat(&[1, 2, 5, 3, 4]);
    t.level_floor_around(2);
    let floors: Vec<usize> = t.columns.iter().map(|c| c.floor).collect();
    assert_eq!(floors, vec![1, 5, 5, 5, 4]);
    let mut edge = flat(&[1, 2]);
    edge.level_floor_around(0);
    assert_eq!(edge.columns[1].floor, 1);
    edge.level_floor_around(9);
    assert_eq!(edge.columns[1].floor, 1);
}

#[test]
fn trim_and_append() {
    let mut t = flat(&[1, 2, 3]);
    t.append(flat(&[4, 5]));
    assert_eq!(t.total_width(), 5);
    t.trim_front(2);
    let floors: Vec<usize> = t.columns.iter().map(|c| c.floor).collect();
    assert_eq!(floors, vec![3, 4, 5]);
    assert_eq!(t.get_at(2).unwrap().floor, 5);
    assert!(t.get_at(3).is_none());
    t.trim_front(10);
    assert_eq!(t.total_width(), 0);
}

#[test]
fn terrain_collisions() {
    let mut t = flat(&[0, 3, 0]);
    t.columns[2].ceiling = 4;
    assert!(!column_blocks(&t.columns[0], 0, 19, 20));
    assert!(column_blocks(&t.columns[1], 5, 17, 20));
    assert!(!column_blocks(&t.columns[1], 5, 16, 20));
    assert!(column_blocks(&t.columns[2], 3, 10, 20));
    assert!(!column_blocks(&t.columns[2], 4, 10, 20));
    assert!(span_hits_terrain(&t, 0, 1, 5, 17, 20));
    assert!(!span_hits_terrain(&t, 0, 0, 5, 17, 20));
    assert!(!span_hits_terrain(&t, 5, 9, 0, 19, 20));
    assert!(reaches_floor(&t, 1, 17, 20));
    assert!(!reaches_floor(&t, 1, 16, 20));
    assert!(!reaches_floor(&t, 0, 19, 20));
    assert!(!reaches_floor(&t, 7, 19, 20));
}

// ---------------------------------------------------------------- renderer

#[test]
fn new_renderer_is_blank() {
    let r = Renderer::new(4, 3);
    assert_eq!(r.hb.len(), 24);
    assert_eq!(r.fg.len(), 12);
    assert!(r.hb.iter().all(|p| *p == HalfPixel::default()));
    assert!(r.fg.iter().all(|c| *c == FgCell::default()));
}

#[test]
fn first_render_writes_everything_then_only_changes() {
    let mut r = Renderer::new(3, 2);
    let out = r.render_diff();
    assert_eq!(out.len(), 6);
    assert_eq!(out[4], (1, 1, TermCell { ch: ' ', fg: Color::Black, bg: Color::Black }));
    assert!(r.render_diff().is_empty());
    r.set_fg(2, 1, 'x', Color::White, Color::Black);
    let out = r.render_diff();
    assert_eq!(out, vec![(2, 1, TermCell { ch: 'x', fg: Color::White, bg: Color::Black })]);
    r.force_redraw();
    assert_eq!(r.render_diff().len(), 6);
}

#[test]
fn half_pixels_composite() {
    let mut r = Renderer::new(2, 1);
    let red = Color::Rgb { r: 255, g: 0, b: 0 };
    r.set_half_pixel(0, 0, red);
    r.set_half_pixel(2, 0, red);
    r.set_half_pixel(3, 0, red);
    r.set_half_pixel(4, 0, red);
    let out = r.render_diff();
    assert_eq!(out[0].2, TermCell { ch: HALF_BLOCK, fg: red, bg: Color::Black });
    assert_eq!(out[1].2, TermCell { ch: ' ', fg: red, bg: red });
}

#[test]
fn transparent_cells_take_the_left_half_pixel() {
    let mut r = Renderer::new(2, 2);
    let blue = Color::Rgb { r: 0, g: 0, b: 200 };
    r.set_half_pixel(2, 1, blue);
    r.set_fg_transparent(1, 1, '.', Color::White);
    assert_eq!(r.fg[3], FgCell { ch: '.', fg: Color::White, bg: blue, active: true });
    r.set_fg_transparent(2, 1, '.', Color::White);
    r.clear();
    assert!(r.fg.iter().all(|c| !c.active));
    assert!(r.hb.iter().all(|p| p.color == Color::Black));
}

#[test]
fn resize_starts_over() {
    let mut r = Renderer::new(2, 2);
    r.set_fg(0, 0, 'a', Color::White, Color::Black);
    r.render_diff();
    r.resize(3, 1);
    assert_eq!((r.width, r.height, r.fg.len(), r.hb.len()), (3, 1, 3, 6));
    assert_eq!(r.render_diff().len(), 3);
}

// ---------------------------------------------------------------- background layers

#[test]
fn star_field_generation() {
    let f = StarField::generate(50, 10, 30, 42);
    assert_eq!(f.stars.len(), 30);
    assert_eq!(f.scroll_divisor, 12);
    assert!(f.stars.iter().all(|(x, y, _)| *x < 50 && *y < 10));
    let g = StarField::generate(50, 10, 30, 42);
    assert_eq!(f.stars, g.stars);
    assert!(StarField::generate(0, 0, 0, 1).stars.is_empty());
}

#[test]
fn stars_render_on_black_only() {
    let star = Color::Rgb { r: 1, g: 2, b: 3 };
    let f = StarField { stars: vec![(1, 0, star), (3, 1, star), (0, 0, star)], world_width: 4, scroll_divisor: 12 };
    let mut r = Renderer::new(3, 2);
    r.set_half_pixel(0, 0, Color::White);
    f.render(&mut r, 5);
    // offset 5 wraps to 1: star x=1 -> column 0 (painted background, skipped),
    // x=3 -> column 2, x=0 -> column 3 (off screen).
    assert!(!r.fg[0].active);
    assert_eq!(r.fg[5], FgCell { ch: '.', fg: star, bg: Color::Black, active: true });
    assert_eq!(r.fg.iter().filter(|c| c.active).count(), 1);
}

#[test]
fn mountains_smooth_and_fill() {
    let m = MountainLayer::from_heights(vec![4, 0, 4, 8], Color::White, 2);
    assert_eq!(m.heights, vec![4, 2, 4, 8]);
    let single = MountainLayer::from_heights(vec![3], Color::White, 1);
    assert_eq!(single.heights, vec![3]);
    let layer = MountainLayer { heights: vec![1, 2], color: Color::White, scroll_divisor: 1 };
    let mut r = Renderer::new(1, 3);
    let near = Color::Rgb { r: 9, g: 9, b: 9 };
    r.set_half_pixel(1, 2, near);
    layer.render(&mut r, 1);
    // half-pixel 0 uses height 2, half-pixel 1 uses height 1
    let colors: Vec<Color> = r.hb.iter().map(|p| p.color).collect();
    assert_eq!(colors, vec![Color::Black, Color::Black, Color::White, Color::Black, Color::White, near]);
}

// ---------------------------------------------------------------- input

#[test]
fn key_presses_map_to_actions() {
    let b = KeyBindings::default();
    let mut s = InputState::default();
    s.handle_key_event(KeyCode::Char('z'), false, KeyEventKind::Press, &b);
    assert!(s.fire && s.any_key);
    assert_eq!(s.last_raw_key, Some(KeyCode::Char('z')));
    s.handle_key_event(KeyCode::Char(' '), false, KeyEventKind::Press, &b);
    s.handle_key_event(KeyCode::Esc, false, KeyEventKind::Press, &b);
    assert!(s.quit);
    let mut t = InputState::default();
    t.handle_key_event(KeyCode::Char('c'), true, KeyEventKind::Press, &b);
    assert!(t.quit && !t.config_toggle);
    let mut u = InputState::default();
    u.handle_key_event(KeyCode::Char('c'), false, KeyEventKind::Press, &b);
    assert!(u.config_toggle && !u.quit);
    let mut v = InputState::default();
    v.handle_key_event(KeyCode::Char('='), false, KeyEventKind::Press, &b);
    assert!(v.cheat_toggle);
    let mut m = InputState::default();
    m.handle_key_event(KeyCode::Modifier(2), false, KeyEventKind::Press, &b);
    assert!(!m.any_key);
    assert_eq!(m.last_raw_key, Some(KeyCode::Modifier(2)));
}

#[test]
fn directions_held_until_released() {
    let b = KeyBindings::default();
    let mut s = InputState::default();
    s.handle_key_event(KeyCode::Up, false, KeyEventKind::Press, &b);
    s.clear_actions();
    s.latch_directions();
    assert!(s.up && s.kb_up);
    s.handle_key_event(KeyCode::Up, false, KeyEventKind::Repeat, &b);
    s.handle_key_event(KeyCode::Char('z'), false, KeyEventKind::Release, &b);
    s.latch_directions();
    assert!(s.up);
    s.handle_key_event(KeyCode::Up, false, KeyEventKind::Release, &b);
    s.latch_directions();
    assert!(!s.up);
}

#[test]
fn clear_actions_keeps_directions() {
    let b = KeyBindings::default();
    let mut s = InputState::default();
    s.handle_key_event(KeyCode::Left, false, KeyEventKind::Press, &b);
    s.handle_key_event(KeyCode::Char('x'), false, KeyEventKind::Press, &b);
    s.latch_directions();
    s.clear_actions();
    assert!(s.left && s.kb_left && !s.bomb && !s.any_key && s.last_raw_key.is_none());
}

#[test]
fn gamepad_adds_to_keyboard() {
    let mut s = InputState::default();
    let pad = GamepadState {
        dpad_up: false, dpad_down: true, dpad_left: false, dpad_right: false,
        stick_left: true, stick_right: false, stick_up: false, stick_down: false,
        south: true, west: false, east: true, start: false, select: true,
    };
    s.merge_gamepad(pad);
    assert!(s.down && s.left && s.fire && s.restart && s.any_key && s.title);
    assert!(!s.up && !s.right && !s.bomb && !s.config_toggle);
}

// ---------------------------------------------------------------- menus

#[test]
fn sounds() {
    assert_eq!(hit_sound(EnemyType::FuelTank), SoundEffect::FuelPickup);
    assert_eq!(hit_sound(EnemyType::Ufo), SoundEffect::Explosion);
    assert_eq!(countdown_sound(2), SoundEffect::CountdownBeep);
    assert_eq!(countdown_sound(3), SoundEffect::StartJingle);
    assert_ne!(GamePhase::Title, GamePhase::Playing);
}

#[test]
fn cheat_menu_navigation() {
    let mut c = CheatState::new();
    assert_eq!(c.update_cheat_menu(Some(KeyCode::Up)), None);
    assert_eq!(c.selected, 3);
    assert_eq!(c.update_cheat_menu(Some(KeyCode::Down)), None);
    assert_eq!(c.selected, 0);
    c.update_cheat_menu(Some(KeyCode::Left));
    assert_eq!(c.start_stage, 1);
    for _ in 0..8 {
        c.update_cheat_menu(Some(KeyCode::Right));
    }
    assert_eq!(c.start_stage, 6);
    c.update_cheat_menu(Some(KeyCode::Down));
    c.update_cheat_menu(Some(KeyCode::Enter));
    assert!(c.invincible);
    c.update_cheat_menu(Some(KeyCode::Down));
    c.update_cheat_menu(Some(KeyCode::Char(' ')));
    assert!(c.infinite_fuel);
    c.update_cheat_menu(Some(KeyCode::Down));
    assert_eq!(c.update_cheat_menu(Some(KeyCode::Enter)), Some(6));
    assert_eq!(c.update_cheat_menu(Some(KeyCode::Esc)), Some(0));
    assert_eq!(c.update_cheat_menu(None), None);
}

#[test]
fn config_rebinds_and_saves() {
    let mut cfg = ConfigState { selected: 0, binding: false, return_to_title: true };
    let mut keys = KeyBindings::default();
    let mut saved = KeyBindings::default();
    assert_eq!(cfg.update_config(Some(KeyCode::Up), &mut keys, &mut saved), ConfigAction::Stay);
    assert_eq!(cfg.selected, 7);
    assert_eq!(cfg.update_config(Some(KeyCode::Enter), &mut keys, &mut saved), ConfigAction::StartBinding);
    assert!(cfg.binding);
    assert_eq!(cfg.update_config(None, &mut keys, &mut saved), ConfigAction::Stay);
    assert!(cfg.binding);
    cfg.update_config(Some(KeyCode::Char('p')), &mut keys, &mut saved);
    assert!(!cfg.binding);
    assert_eq!(keys.restart, KeyCode::Char('p'));
    assert_eq!(saved.restart, KeyCode::Char('r'));
    cfg.update_config(Some(KeyCode::Enter), &mut keys, &mut saved);
    cfg.update_config(Some(KeyCode::Esc), &mut keys, &mut saved);
    assert_eq!(keys.restart, KeyCode::Char('p'));
    assert_eq!(cfg.update_config(Some(KeyCode::Esc), &mut keys, &mut saved), ConfigAction::Close);
    assert_eq!(saved, keys);
}

#[test]
fn name_entry_letters_and_cursor() {
    let mut e = NameEntry::new(Some(0));
    assert!(e.entering_name);
    e.letter_up();
    assert_eq!(e.name, ['Z', 'A', 'A']);
    e.letter_down();
    e.letter_down();
    assert_eq!(e.name, ['B', 'A', 'A']);
    e.cursor_left();
    assert_eq!(e.name_pos, 0);
    e.cursor_right();
    e.cursor_right();
    e.cursor_right();
    assert_eq!(e.name_pos, 2);
    assert!(!NameEntry::new(None).entering_name);
}

#[test]
fn name_entry_confirms_into_table() {
    let mut save = table(&[500, 100]);
    let rank = save.qualifies(300);
    let mut e = NameEntry::new(rank);
    let mut step = e.step(Some(KeyCode::Down), false, false, false, false, false, true, &mut save, 300, 2);
    assert!(!step.used_stick && !step.saved);
    step = e.step(None, false, false, false, true, false, false, &mut save, 300, 2);
    assert!(!step.used_stick);
    assert_eq!(e.name_pos, 0);
    step = e.step(None, false, false, false, true, false, true, &mut save, 300, 2);
    assert!(step.used_stick);
    assert_eq!(e.name_pos, 1);
    step = e.step(Some(KeyCode::Char('z')), false, false, false, false, false, true, &mut save, 300, 2);
    assert!(step.saved && !step.used_stick);
    assert!(!e.entering_name);
    assert_eq!(save.high_scores.len(), 3);
    assert_eq!(save.high_scores[1].name, "BAA");
    assert_eq!(save.high_scores[1].score, 300);
    step = e.step(Some(KeyCode::Enter), true, true, true, true, true, true, &mut save, 300, 2);
    assert!(!step.saved && !step.used_stick);
}

// ---------------------------------------------------------------- spawning

#[test]
fn fuel_pushes_out_nearby_rockets() {
    let mut t = flat(&[2, 2, 2, 2, 2, 2, 2, 2, 2, 2, 2, 2]);
    t.columns[5].floor = 4;
    let ps = vec![
        EnemyPlacement::rocket(2),
        EnemyPlacement::rocket(9),
        EnemyPlacement::fuel(5),
        EnemyPlacement::rocket(7),
        EnemyPlacement::fuel(5),
        EnemyPlacement::turret(3),
        EnemyPlacement::ufo(4, UfoPattern::Bouncer),
        EnemyPlacement::fuel(40),
    ];
    let plans = plan_spawns(&mut t, &ps, 0, 20);
    let alive: Vec<(usize, bool)> = plans.iter().map(|p| (p.world_col, p.alive)).collect();
    assert_eq!(alive, vec![(2, false), (9, true), (5, true), (3, true), (4, true), (40, true)]);
    assert_eq!(plans[0].row, Some(17));
    assert_eq!(plans[2].row, Some(15));
    assert_eq!(plans[3].row, Some(0));
    assert_eq!(plans[4].row, None);
    assert_eq!(plans[5].row, Some(17));
    let floors: Vec<usize> = t.columns.iter().map(|c| c.floor).collect();
    assert_eq!(floors, vec![2, 2, 2, 2, 4, 4, 4, 2, 2, 2, 2, 2]);
}

#[test]
fn spawns_shift_by_offset() {
    let mut t = flat(&[1; 30]);
    let ps = vec![EnemyPlacement::rocket(2), EnemyPlacement::meteor(3)];
    let plans = plan_spawns(&mut t, &ps, 20, 10);
    assert_eq!(plans[0].world_col, 22);
    assert_eq!(plans[0].row, Some(8));
    assert_eq!(plans[1].world_col, 23);
    assert!(plans[1].placement.near_top);
}

#[test]
fn storable_names_with_format_characters_round_trip() {
    let mut d = SaveData::default();
    d.high_scores.push(entry("s{:", 7, 2));
    d.high_scores.push(entry("", 5, 1));
    d.keybindings.set(5, KeyCode::Char('['));
    d.keybindings.set(7, KeyCode::Char(' '));
    let back = SaveData::parse(&d.to_json()).unwrap();
    assert_eq!(back.high_scores.len(), 2);
    assert_eq!(back.high_scores[0].name, "s{:");
    assert_eq!(back.high_scores[0].score, 7);
    assert_eq!(back.high_scores[0].stage, 2);
    assert_eq!(back.high_scores[1].name, "");
    assert_eq!(back.keybindings, d.keybindings);
}

#[test]
fn quote_in_name_does_not_round_trip() {
    let mut d = SaveData::default();
    d.high_scores.push(entry("A\"B", 9, 1));
    let back = SaveData::parse(&d.to_json()).unwrap();
    assert_eq!(back.high_scores[0].name, "A\\");
}

#[test]
fn floor_enemies_stand_apart() {
    let mut t = flat(&[1; 40]);
    let ps = vec![
        EnemyPlacement::fuel(10),
        EnemyPlacement::rocket(12),
        EnemyPlacement::rocket(10),
        EnemyPlacement::rocket(20),
        EnemyPlacement::rocket(20),
        EnemyPlacement::fuel(23),
    ];
    let plans = plan_spawns(&mut t, &ps, 0, 10);
    let placed: Vec<(usize, EnemyType, bool)> =
        plans.iter().map(|p| (p.world_col, p.placement.enemy_type, p.alive)).collect();
    assert_eq!(
        placed,
        vec![(10, EnemyType::FuelTank, true), (20, EnemyType::Rocket, false), (23, EnemyType::FuelTank, true)]
    );
}

#[test]
fn score_rows_make_room_for_a_new_score() {
    let d = table(&[500, 300, 100]);
    let rows = score_rows(&d, Some(1), ['B', 'O', 'B'], 400, 2);
    let shown: Vec<(String, u32, usize, bool)> =
        rows.iter().map(|r| (r.name.clone(), r.score, r.stage, r.is_new)).collect();
    assert_eq!(shown.len(), 10);
    assert_eq!(shown[0], ("AAA".to_string(), 500, 1, false));
    assert_eq!(shown[1], ("BOB".to_string(), 400, 2, true));
    assert_eq!(shown[2], ("AAA".to_string(), 300, 2, false));
    assert_eq!(shown[3], ("AAA".to_string(), 100, 3, false));
    assert_eq!(shown[4], ("---".to_string(), 0, 0, false));
    let plain = score_rows(&d, None, ['A'; 3], 0, 0);
    assert_eq!(plain[2].score, 100);
    assert!(!plain.iter().any(|r| r.is_new));
    assert_eq!(plain[9].name, "---");
}

#[test]
fn enemy_sprites() {
    let red = Color::Rgb { r: 255, g: 80, b: 80 };
    assert_eq!(
        enemy_sprite(EnemyType::Rocket, UfoPattern::SineWave, false, 4, 5, 20, 10),
        vec![(4, 4, '^', red), (4, 5, 'A', red)]
    );
    assert_eq!(
        enemy_sprite(EnemyType::Rocket, UfoPattern::SineWave, true, 4, 0, 20, 10),
        vec![(4, 0, '|', red), (4, 1, '*', Color::Rgb { r: 255, g: 200, b: 50 })]
    );
    let saucer = enemy_sprite(EnemyType::Ufo, UfoPattern::Charger, false, 3, 2, 20, 10);
    let chars: Vec<char> = saucer.iter().map(|c| c.2).collect();
    assert_eq!(chars, vec!['{', 'V', '}']);
    assert!(enemy_sprite(EnemyType::Ufo, UfoPattern::Charger, false, 0, 2, 20, 10).is_empty());
    assert!(enemy_sprite(EnemyType::FuelTank, UfoPattern::SineWave, false, 18, 2, 20, 10).is_empty());
    let turret = enemy_sprite(EnemyType::Turret, UfoPattern::SineWave, false, 5, 9, 20, 10);
    assert_eq!(turret.len(), 2);
}

#[test]
fn ship_and_explosion_sprites() {
    let ship = ship_sprite(5, 3, 40, 10);
    assert_eq!(ship.len(), 11);
    assert_eq!(ship[3], (4, 3, '<', Color::Rgb { r: 255, g: 160, b: 40 }));
    assert_eq!(ship[7].2, '>');
    assert!(ship_sprite(0, 3, 40, 10).is_empty());
    assert!(ship_sprite(36, 3, 40, 10).is_empty());
    assert!(ship_sprite(5, 9, 40, 10).is_empty());
    let blast = explosion_sprite(0, 0, 1, 10, 10);
    let cells: Vec<(usize, usize, char)> = blast.iter().map(|c| (c.0, c.1, c.2)).collect();
    assert_eq!(cells, vec![(0, 0, '@'), (1, 0, '#'), (0, 1, '#')]);
}

#[test]
fn painting_sprites() {
    let mut r = Renderer::new(4, 2);
    r.set_half_pixel(2, 1, Color::White);
    r.paint(&vec![(1, 1, 'x', Color::Black), (9, 0, 'y', Color::Black)]);
    assert_eq!(r.fg[5], FgCell { ch: 'x', fg: Color::Black, bg: Color::White, active: true });
    assert!(r.fg.iter().filter(|c| c.active).count() == 1);
}

#[test]
fn configuration_rows() {
    let b = KeyBindings::default();
    let (text, style) = config_row(&b, 4, 0, false, true);
    let text: String = text.into_iter().collect();
    assert_eq!(text, format!(" {} {:<10}: {:<14}", " ", "Fire", "Z"));
    assert_eq!(text.chars().count(), 29);
    assert_eq!(style, RowStyle::Normal);
    let (text, style) = config_row(&b, 0, 0, true, true);
    let text: String = text.into_iter().collect();
    assert_eq!(text, " > Up        : [Press a key...]");
    assert_eq!(style, RowStyle::Binding);
    let (text, style) = config_row(&b, 0, 0, true, false);
    let text: String = text.into_iter().collect();
    assert_eq!(text, format!(" > {:<10}: {}", "Up", " ".repeat(14)));
    assert_eq!(style, RowStyle::Binding);
    let (text, style) = config_row(&b, 1, 1, false, false);
    let text: String = text.into_iter().collect();
    assert_eq!(text, format!(" > {:<10}: {:<14}", "Down", "\u{2193}"));
    assert_eq!(style, RowStyle::Selected);
}

#[test]
fn debug_menu_rows() {
    let mut c = CheatState::new();
    c.start_stage = 4;
    c.infinite_fuel = true;
    let texts: Vec<String> = (0..4).map(|i| cheat_row(&c, i).0.into_iter().collect()).collect();
    assert_eq!(texts[0], format!(" > {:<27}", "Start Stage:  < 4 >"));
    assert_eq!(texts[1], format!("   {:<27}", "Invincible:   OFF"));
    assert_eq!(texts[2], format!("   {:<27}", "Infinite Fuel: ON"));
    assert_eq!(texts[3], format!("   {:<27}", ">>> LAUNCH <<<"));
    assert_eq!(cheat_row(&c, 0).1, RowStyle::Selected);
    assert_eq!(cheat_row(&c, 1).1, RowStyle::Normal);
    assert_eq!(cheat_row(&c, 2).1, RowStyle::On);
}

#[test]
fn status_rows() {
    let top: String = status_top_line(1200, 45000, 3, "v0.1.24", 50).into_iter().collect();
    assert_eq!(top, format!("{:<50}", format!(" SCORE: {:>6}  HI: {:>6}  STAGE {}  {}", 1200, 45000, 3, "v0.1.24")));
    let narrow: String = status_top_line(1234567, 0, 12, "v", 10).into_iter().collect();
    assert_eq!(narrow, " SCORE: 1234567  HI:      0  STAGE 12  v");
    assert_eq!(status_gap_width(3, 80), 80 - 17 - 32);
    assert_eq!(status_gap_width(3, 40), 0);
    assert_eq!(status_gap_width(0, 10), 0);
}

#[test]
fn backslash_binding_round_trips() {
    let mut d = SaveData::default();
    d.keybindings.set(4, KeyCode::Char('\\'));
    let text = d.to_json();
    assert!(text.contains("\"Char:\\\\\""));
    let back = SaveData::parse(&text).unwrap();
    assert_eq!(back.keybindings, d.keybindings);
}

#[test]
fn each_airborne_placement_gives_one_standing_plan() {
    let mut t = flat(&[1; 20]);
    let ps = vec![
        EnemyPlacement::turret(3),
        EnemyPlacement::rocket(4),
        EnemyPlacement::ufo(4, UfoPattern::ZSweep),
        EnemyPlacement::meteor(4),
    ];
    let plans = plan_spawns(&mut t, &ps, 7, 10);
    let air: Vec<(usize, bool)> =
        plans.iter().filter(|p| !p.placement.on_floor).map(|p| (p.world_col, p.alive)).collect();
    assert_eq!(air, vec![(10, true), (11, true), (11, true)]);
}

#[test]
fn escaping_adds_one_backslash_per_special_character() {
    let s = "a\\b\"c\"";
    assert_eq!(escape_json(s).chars().count(), s.chars().count() + 3);
}

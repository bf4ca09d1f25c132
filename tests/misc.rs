use rustedcraft::fixed::ONE;
use rustedcraft::font::Font;
use rustedcraft::input::{collect_input, test_should_close, Action, InputDatas, Key};
use rustedcraft::perf_metrics::{append_decimal, Fps, Mpf, PerfHandler, PerfMetrics, SECOND};
use rustedcraft::text::Text;
use rustedcraft::texture_loader::TextureLoader;
use rustedcraft::vec::Vec2;

#[test]
fn escape_closes_session() {
    let mut input = InputDatas {
        keys: vec![(Action::Press, Key::W), (Action::Release, Key::A)],
        mouse_position: Vec2::new(0, 0),
    };
    assert!(!test_should_close(&input));
    input.keys.push((Action::Release, Key::Escape));
    assert!(test_should_close(&input));
}

#[test]
fn texture_table_keeps_load_order() {
    let mut t = TextureLoader::new();
    assert_eq!(t.len(), 0);
    t.load(7);
    t.load(3);
    t.load(11);
    assert_eq!(t.len(), 3);
    assert_eq!(t.get(0), 7);
    assert_eq!(t.get(2), 11);
}

#[test]
fn font_handles() {
    let f = Font::new(4, 9, -1);
    assert_eq!(f.get_progid(), 4);
    assert_eq!(f.get_texid(), 9);
    assert_eq!(f.get_texuniform(), -1);
}

#[test]
fn fps_counts_frames_per_second() {
    let mut fps = Fps::new(0);
    for i in 1..=30u64 {
        fps.frame_begin(i * 33_000);
        fps.frame_end(i * 33_000);
    }
    assert_eq!(fps.get_value(), 0);
    fps.frame_end(SECOND);
    assert_eq!(fps.get_value(), 31);
    assert_eq!(fps.cur_frames, 0);
    assert_eq!(fps.frame_start, SECOND);
    fps.reset(5);
    assert_eq!(fps, Fps { frames: 0, cur_frames: 0, frame_start: 5 });
}

#[test]
fn mpf_measures_last_frame() {
    let mut mpf = Mpf::new(0);
    mpf.frame_begin(1_000);
    mpf.frame_end(17_500);
    assert_eq!(mpf.get_value(), 16_500);
    mpf.frame_begin(20_000);
    mpf.frame_end(19_000);
    assert_eq!(mpf.get_value(), 0);
}

#[test]
fn perf_handler_dispatches() {
    let mut h = PerfHandler::MillisecondsPerFrame(Mpf::new(0));
    h.frame_begin(100);
    h.frame_end(400);
    assert_eq!(h.get_value(), 300);
    let mut f = PerfHandler::FramesPerSecond(Fps::new(0));
    f.frame_begin(10);
    f.frame_end(SECOND + 1);
    assert_eq!(f.get_value(), 1);
    f.reset(0);
    assert_eq!(f.get_value(), 0);
}

#[test]
fn text_lays_out_one_quad_per_byte() {
    let p = Vec2::new(7 * ONE, 7 * ONE);
    let t = Text::new(Some(b"AB".to_vec()), p);
    assert_eq!(t.vertices_size(), 12);
    let o = |x: i32, y: i32| Vec2::new(x * ONE, y * ONE);
    assert_eq!(
        t.vertices[..6].to_vec(),
        vec![o(7, 19), o(7, 7), o(19, 19), o(19, 7), o(19, 19), o(7, 7)]
    );
    assert_eq!(t.vertices[6], o(19, 19));
    assert_eq!(t.vertices[9], o(31, 7));
    let uv = |x: i32, y: i32| Vec2::new(x, y);
    assert_eq!(
        t.tex_coords[..6].to_vec(),
        vec![
            uv(4096, 49152),
            uv(4096, 45056),
            uv(8192, 49152),
            uv(8192, 45056),
            uv(8192, 49152),
            uv(4096, 45056)
        ]
    );
    assert_eq!(t.tex_coords[6], uv(8192, 49152));
}

#[test]
fn text_settings_and_relayout() {
    let mut t = Text::new(Some(b"Fps: ".to_vec()), Vec2::new(0, 0));
    assert_eq!(t.vertices_size(), 30);
    t.set_size(2);
    t.set_position(&Vec2::new(ONE, ONE));
    t.set_text(b"0".to_vec());
    assert_eq!(t.vertices_size(), 6);
    assert_eq!(t.vertices[0], Vec2::new(ONE, 3 * ONE));
    assert_eq!(t.tex_coords[0], Vec2::new(0, ONE - 3 * 4096));
    t.clear();
    assert_eq!(t.text, None);
}

#[test]
fn input_snapshot_appends_held_keys_and_defaults_pointer() {
    let window = Vec2::new(1024 * ONE, 768 * ONE);
    let r = collect_input(vec![(Action::Release, Key::Escape)], true, false, true, true, Vec2::new(0, 0), window);
    assert_eq!(
        r.keys,
        vec![
            (Action::Release, Key::Escape),
            (Action::Press, Key::W),
            (Action::Press, Key::S),
            (Action::Press, Key::A)
        ]
    );
    assert_eq!(r.mouse_position, Vec2::new(512 * ONE, 384 * ONE));
    let moved = collect_input(vec![], false, true, false, false, Vec2::new(3, 0), window);
    assert_eq!(moved.keys, vec![(Action::Press, Key::D)]);
    assert_eq!(moved.mouse_position, Vec2::new(3, 0));
}

#[test]
fn decimal_label_formatting() {
    assert_eq!(append_decimal(&b"Fps: ".to_vec(), 60), b"Fps: 60".to_vec());
    assert_eq!(append_decimal(&b"Fps: ".to_vec(), 0), b"Fps: 0".to_vec());
    assert_eq!(append_decimal(&vec![], 1005), b"1005".to_vec());
    assert_eq!(append_decimal(&vec![], u64::MAX), u64::MAX.to_string().into_bytes());
}

#[test]
fn perf_metrics_relabels_each_frame() {
    let mut pm = PerfMetrics::new(PerfHandler::FramesPerSecond(Fps::new(0)));
    assert_eq!(pm.label_text().vertices_size(), 30);
    for i in 1..=120u64 {
        pm.frame_begin(i * 10_000);
        pm.frame_end(i * 10_000);
    }
    // "Fps: 100" after the first full second
    assert_eq!(pm.label_text().vertices_size(), 6 * 8);
    assert_eq!(pm.label_text().vertices[0], Vec2::new(7 * ONE, 19 * ONE));
    let one_digit = Text::new(Some(b"1".to_vec()), Vec2::new(0, 0));
    assert_eq!(pm.label_text().tex_coords[30], one_digit.tex_coords[0]);
}

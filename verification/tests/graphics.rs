use good_web_game::graphics::mesh::MeshIdx;
use good_web_game::graphics::spritebatch::SpriteIdx;
use good_web_game::graphics::image::{solid_pixels, DirtyFlag};
use good_web_game::graphics::shader::{
    BlendFactor, BlendMode, BlendState, BlendValue, Equation, DEFAULT_SHADER_ID,
};
use good_web_game::graphics::text::{Font, FontId};

fn st(e: Equation, s: BlendFactor, d: BlendFactor) -> BlendState {
    BlendState::new(e, s, d)
}

#[test]
fn blend_state_new_keeps_its_parts() {
    let s = BlendState::new(Equation::Subtract, BlendFactor::One, BlendFactor::Zero);
    assert_eq!(s.equation, Equation::Subtract);
    assert_eq!(s.sfactor, BlendFactor::One);
    assert_eq!(s.dfactor, BlendFactor::Zero);
}

#[test]
fn alpha_blending_is_the_usual_transparency() {
    let src_alpha = BlendFactor::Value(BlendValue::SourceAlpha);
    assert_eq!(
        BlendMode::Alpha.blend_states(),
        (
            st(Equation::Add, src_alpha, BlendFactor::OneMinusValue(BlendValue::SourceAlpha)),
            st(
                Equation::Add,
                BlendFactor::OneMinusValue(BlendValue::DestinationAlpha),
                BlendFactor::One
            ),
        )
    );
}

#[test]
fn blend_table_of_every_mode() {
    let src_alpha = BlendFactor::Value(BlendValue::SourceAlpha);
    assert_eq!(
        BlendMode::Add.blend_states(),
        (
            st(Equation::Add, src_alpha, BlendFactor::One),
            st(Equation::Add, src_alpha, BlendFactor::One)
        )
    );
    assert_eq!(
        BlendMode::Subtract.blend_states(),
        (
            st(Equation::ReverseSubtract, src_alpha, BlendFactor::One),
            st(Equation::Add, BlendFactor::Zero, BlendFactor::One)
        )
    );
    assert_eq!(
        BlendMode::Premultiplied.blend_states(),
        (
            st(Equation::Add, BlendFactor::One, BlendFactor::OneMinusValue(BlendValue::SourceAlpha)),
            st(
                Equation::Add,
                BlendFactor::OneMinusValue(BlendValue::DestinationAlpha),
                BlendFactor::One
            )
        )
    );
    assert_eq!(
        BlendMode::Multiply.blend_states(),
        (
            st(Equation::Add, BlendFactor::Value(BlendValue::DestinationColor), BlendFactor::Zero),
            st(Equation::Add, BlendFactor::Value(BlendValue::DestinationAlpha), BlendFactor::Zero)
        )
    );
    assert_eq!(
        BlendMode::Replace.blend_states(),
        (
            st(Equation::Add, BlendFactor::One, BlendFactor::Zero),
            st(Equation::Add, BlendFactor::One, BlendFactor::Zero)
        )
    );
}

#[test]
fn handles_and_defaults() {
    assert_eq!(DEFAULT_SHADER_ID, 0);
    assert_eq!(Font::default(), Font(FontId(0)));
    assert!(MeshIdx(1) < MeshIdx(2));
    assert_eq!(SpriteIdx(3), SpriteIdx(3));
}

#[test]
fn dirty_flag_reads_what_was_stored() {
    let f = DirtyFlag::new(false);
    assert!(!f.load());
    f.store(true);
    assert!(f.load());
    let g = f.clone();
    f.store(false);
    assert!(g.load());
    assert!(!f.load());
}

use good_web_game::decimal::decimal_string;
use good_web_game::error::GameError;
use good_web_game::graphics::mesh::{
    check_mesh_sizes, FlushPlan, MeshBatch, INDICES_NOT_TRIANGLES, TOO_FEW_INDICES,
    TOO_FEW_VERTICES,
};
use good_web_game::graphics::shader::{clear_shader, set_shader, use_shader, ShaderId};
use good_web_game::graphics::spritebatch::SpriteBatch;

fn lyon_message(r: Result<(), GameError>) -> String {
    match r {
        Err(GameError::LyonError(m)) => m,
        _ => panic!("expected a lyon error"),
    }
}

fn render_message<T>(r: Result<T, GameError>) -> String {
    match r {
        Err(GameError::RenderError(m)) => m,
        _ => panic!("expected a render error"),
    }
}

#[test]
fn decimal_notation() {
    assert_eq!(decimal_string(0), "0");
    assert_eq!(decimal_string(7), "7");
    assert_eq!(decimal_string(10), "10");
    assert_eq!(decimal_string(65536), "65536");
    assert_eq!(decimal_string(usize::MAX), usize::MAX.to_string());
}

#[test]
fn mesh_sizes_that_pass() {
    assert!(check_mesh_sizes(3, &[0, 1, 2]).is_ok());
    assert!(check_mesh_sizes(65535, &[0, 1, 2, 2, 1, 0]).is_ok());
}

#[test]
fn mesh_size_errors_in_check_order() {
    let many = vec![0u16; 65536];
    assert_eq!(
        lyon_message(check_mesh_sizes(70000, &many)),
        "Tried to build a mesh with 70000 vertices, max is u16::MAX"
    );
    assert_eq!(
        lyon_message(check_mesh_sizes(2, &many)),
        "Tried to build a mesh with 65536 indices, max is u16::MAX"
    );
    assert_eq!(lyon_message(check_mesh_sizes(2, &[0, 1])), TOO_FEW_VERTICES);
    assert_eq!(
        lyon_message(check_mesh_sizes(3, &[0, 1])),
        format!("{}{:#?}", TOO_FEW_INDICES, [0u16, 1])
    );
    assert_eq!(
        lyon_message(check_mesh_sizes(3, &[0, 1])),
        "Trying to build mesh with < 3 indices, this is usually due to invalid input to a `Mesh` or MeshBuilder`.  Indices:\n [\n    0,\n    1,\n]"
    );
    assert_eq!(lyon_message(check_mesh_sizes(4, &[0, 1, 2, 3])), INDICES_NOT_TRIANGLES);
}

#[test]
fn mesh_batch_instances() {
    let mut b: MeshBatch<u32> = MeshBatch::new();
    assert!(b.is_dirty());
    assert_eq!(b.add(10).0, 0);
    assert_eq!(b.add(11).0, 1);
    assert_eq!(b.add(12).0, 2);
    assert_eq!(b.get_instance_params(), &[10, 11, 12]);
    assert!(b.set(MeshIdx(1), 21).is_ok());
    assert_eq!(b.get_instance_params(), &[10, 21, 12]);
    assert_eq!(
        render_message(b.set(MeshIdx(3), 0)),
        "Index out of bounds"
    );
    assert!(b.set_range(MeshIdx(1), &[31, 32]).is_ok());
    assert_eq!(b.get_instance_params(), &[10, 31, 32]);
    assert_eq!(
        render_message(b.set_range(MeshIdx(2), &[1, 2])),
        "Range out of bounds"
    );
    assert_eq!(
        render_message(b.set_range(MeshIdx(3), &[])),
        "Range out of bounds"
    );
    assert_eq!(b.get_instance_params(), &[10, 31, 32]);
    b.clear();
    assert_eq!(b.len(), 0);
    assert!(b.is_dirty());
}

#[test]
fn mesh_batch_flush_plans() {
    let mut b: MeshBatch<u8> = MeshBatch::new();
    assert_eq!(render_message(b.flush()), "Range out of bounds");
    b.add(1);
    b.add(2);
    b.add(3);
    // the first flush needs a GPU buffer for all instances
    assert_eq!(b.flush_range(MeshIdx(1), 1).unwrap(), FlushPlan { new_buffer: true, start: 0, end: 3 });
    assert!(!b.is_dirty());
    // now the buffer is large enough: just the range goes
    assert_eq!(b.flush_range(MeshIdx(1), 2).unwrap(), FlushPlan { new_buffer: false, start: 1, end: 3 });
    b.add(4);
    assert!(b.is_dirty());
    assert_eq!(b.flush().unwrap(), FlushPlan { new_buffer: true, start: 0, end: 4 });
    assert_eq!(render_message(b.flush_range(MeshIdx(2), 3)), "Range out of bounds");
    assert_eq!(render_message(b.flush_range(MeshIdx(4), 0)), "Range out of bounds");
    b.clear();
    b.add(9);
    assert_eq!(b.flush().unwrap(), FlushPlan { new_buffer: false, start: 0, end: 1 });
}

#[test]
fn sprite_batch_bookkeeping() {
    let mut b: SpriteBatch<i16> = SpriteBatch::new();
    assert_eq!(b.prepare_draw(), FlushPlan { new_buffer: false, start: 0, end: 0 });
    assert_eq!(b.add(5), SpriteIdx(0));
    assert_eq!(b.add(6), SpriteIdx(1));
    assert!(b.set(SpriteIdx(0), 7).is_ok());
    assert_eq!(b.get_sprites(), &[7, 6]);
    assert_eq!(render_message(b.set(SpriteIdx(2), 0)), "Provided index is out of bounds.");
    assert_eq!(b.prepare_draw(), FlushPlan { new_buffer: true, start: 0, end: 2 });
    // every draw copies all sprites again, changed in place or not
    b.get_sprites_mut()[1] = 8;
    assert_eq!(b.get_sprites(), &[7, 8]);
    assert_eq!(b.prepare_draw(), FlushPlan { new_buffer: false, start: 0, end: 2 });
    b.clear();
    assert_eq!(b.len(), 0);
    b.add(1);
    assert_eq!(b.prepare_draw(), FlushPlan { new_buffer: false, start: 0, end: 1 });
    b.reset_gpu();
    assert_eq!(b.prepare_draw(), FlushPlan { new_buffer: true, start: 0, end: 1 });
}

#[test]
fn a_shader_lock_restores_the_previous_shader() {
    let mut current: ShaderId = 0;
    set_shader(&mut current, 2);
    let lock = use_shader(&mut current, 5);
    assert_eq!(current, 5);
    clear_shader(&mut current);
    assert_eq!(current, 0);
    set_shader(&mut current, 7);
    lock.release(&mut current);
    assert_eq!(current, 2);
}

#[test]
fn solid_pixels_repeat_the_color() {
    assert_eq!(solid_pixels(0, [1, 2, 3, 4]), Vec::<u8>::new());
    assert_eq!(solid_pixels(1, [1, 2, 3, 4]), vec![1, 2, 3, 4]);
    let p = solid_pixels(3, [9, 8, 7, 6]);
    assert_eq!(p.len(), 36);
    for (i, b) in p.iter().enumerate() {
        assert_eq!(*b, [9, 8, 7, 6][i % 4]);
    }
}

#[test]
fn mesh_batch_draw_flushes_only_when_changed() {
    let mut b: MeshBatch<u8> = MeshBatch::new();
    // an empty batch draws nothing, dirty or not
    assert_eq!(b.prepare_draw(), None);
    assert!(b.is_dirty());
    b.add(1);
    b.add(2);
    assert_eq!(
        b.prepare_draw(),
        Some(Some(FlushPlan { new_buffer: true, start: 0, end: 2 }))
    );
    assert!(!b.is_dirty());
    // unchanged: drawn as it is on the GPU
    assert_eq!(b.prepare_draw(), Some(None));
    // a change is flushed on the next draw
    assert!(b.set(MeshIdx(0), 5).is_ok());
    assert_eq!(
        b.prepare_draw(),
        Some(Some(FlushPlan { new_buffer: false, start: 0, end: 2 }))
    );
    b.clear();
    assert_eq!(b.prepare_draw(), None);
}

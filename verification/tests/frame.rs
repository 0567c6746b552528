use compute_toy::bind::{BindingKind, DeviceLimits, SlotDecision};
use compute_toy::context::{preferred_framebuffer_format, FramebufferFormat};
use compute_toy::meta::{ShaderMeta, Texture, Uniform};
use compute_toy::pp::ErrorKind;
use compute_toy::frame::{uniform_block_bytes, FrameError, FrameState};
use compute_toy::precision::{clamp_unit, to_half};
use compute_toy::render::{
    plan_dispatches, resolve_dispatch, tile_count, CompilerMessage, Dispatch, DispatchSize,
    Renderer,
};

const LIMITS: DeviceLimits =
    DeviceLimits { max_uniform_bytes: 65536, max_storage_bytes: 1 << 27, max_texture_dimension: 8192 };

fn bits(x: f32) -> u32 {
    x.to_bits()
}

fn running(program: &str) -> Renderer {
    let mut r = Renderer::new(1280, 720);
    let expanded = r.preprocess(program, &vec![]).unwrap();
    r.plan_build(&expanded, &LIMITS).unwrap();
    r.finish_build(expanded, None).unwrap();
    r
}

#[test]
fn set_custom_floats_rejects_mismatched_lengths() {
    let mut state = FrameState::new();
    state.set_custom_floats(vec!["a".to_string()], vec![bits(2.0)]).unwrap();
    let r = state.set_custom_floats(vec!["a".to_string(), "b".to_string()], vec![bits(1.0)]);
    assert_eq!(r, Err(FrameError::LengthMismatch { names: 2, values: 1 }));
    let r = state.set_custom_floats(vec![], vec![bits(1.0)]);
    assert_eq!(r, Err(FrameError::LengthMismatch { names: 0, values: 1 }));
    assert_eq!(state.custom_float(&"a".to_string()), bits(2.0));
    assert_eq!(state.custom_float(&"b".to_string()), 0);
}

#[test]
fn set_custom_floats_replaces_the_whole_mapping() {
    let mut state = FrameState::new();
    state
        .set_custom_floats(vec!["a".to_string(), "b".to_string()], vec![bits(1.5), bits(-2.0)])
        .unwrap();
    assert_eq!(state.custom_float(&"a".to_string()), bits(1.5));
    assert_eq!(state.custom_float(&"b".to_string()), bits(-2.0));
    state.set_custom_floats(vec!["c".to_string()], vec![bits(3.0)]).unwrap();
    assert_eq!(state.custom_float(&"a".to_string()), 0);
    assert_eq!(state.custom_float(&"c".to_string()), bits(3.0));
    state.set_custom_floats(vec!["c".to_string(), "c".to_string()], vec![1, 2]).unwrap();
    assert_eq!(state.custom_float(&"c".to_string()), 2);
}

#[test]
fn setters_change_their_own_field() {
    let mut state = FrameState::new();
    assert_eq!(state.time_elapsed(), 0);
    assert_eq!(state.mouse_pos(), (0, 0));
    assert!(!state.mouse_click());
    assert!(state.pass_f32());
    state.set_time_elapsed(bits(12.5));
    state.set_mouse_pos(bits(0.25), bits(0.75));
    state.set_mouse_click(true);
    state.set_pass_f32(false);
    assert_eq!(state.time_elapsed(), bits(12.5));
    assert_eq!(state.mouse_pos(), (bits(0.25), bits(0.75)));
    assert!(state.mouse_click());
    assert!(!state.pass_f32());
}

#[test]
fn pointer_coordinates_are_clamped_to_the_unit_range() {
    assert_eq!(clamp_unit(bits(0.0)), bits(0.0));
    assert_eq!(clamp_unit(bits(1.0)), bits(1.0));
    assert_eq!(clamp_unit(bits(0.5)), bits(0.5));
    assert_eq!(clamp_unit(bits(-0.5)), bits(0.0));
    assert_eq!(clamp_unit(bits(-0.0)), bits(0.0));
    assert_eq!(clamp_unit(bits(1.0000001)), bits(1.0));
    assert_eq!(clamp_unit(bits(f32::INFINITY)), bits(1.0));
    assert_eq!(clamp_unit(bits(f32::NEG_INFINITY)), bits(0.0));
    assert_eq!(clamp_unit(bits(f32::NAN)), bits(1.0));
    let mut state = FrameState::new();
    state.set_mouse_pos(bits(-3.0), bits(7.0));
    assert_eq!(state.mouse_pos(), (bits(0.0), bits(1.0)));
}

#[test]
fn clamping_agrees_with_the_float_clamp() {
    for x in [0.0f32, 1e-30, 0.3, 0.999, 1.0, 1.5, -1e-30, -7.0, 1e30] {
        assert_eq!(f32::from_bits(clamp_unit(bits(x))), x.clamp(0.0, 1.0), "{}", x);
    }
}

#[test]
fn narrowing_rounds_to_the_nearest_half() {
    assert_eq!(to_half(bits(0.0)), 0x0000);
    assert_eq!(to_half(bits(-0.0)), 0x8000);
    assert_eq!(to_half(bits(1.0)), 0x3c00);
    assert_eq!(to_half(bits(-2.0)), 0xc000);
    assert_eq!(to_half(bits(0.5)), 0x3800);
    assert_eq!(to_half(bits(65504.0)), 0x7bff);
    assert_eq!(to_half(bits(3.14159274)), 0x4248);
    assert_eq!(to_half(bits(0.1)), 0x2e66);
    assert_eq!(to_half(bits(1.0 / 3.0)), 0x3555);
}

#[test]
fn narrowing_handles_the_ends_of_the_range() {
    assert_eq!(to_half(bits(f32::INFINITY)), 0x7c00);
    assert_eq!(to_half(bits(f32::NEG_INFINITY)), 0xfc00);
    assert_eq!(to_half(bits(f32::NAN)) & 0x7fff, 0x7e00);
    assert_eq!(to_half(bits(65520.0)), 0x7c00);
    assert_eq!(to_half(bits(65519.0)), 0x7bff);
    assert_eq!(to_half(bits(1e10)), 0x7c00);
    // The smallest normal half, and subnormal halves below it.
    assert_eq!(to_half(bits(6.103515625e-5)), 0x0400);
    assert_eq!(to_half(bits(6.097555160522461e-5)), 0x03ff);
    assert_eq!(to_half(bits(5.960464477539063e-8)), 0x0001);
    assert_eq!(to_half(bits(1.1920928955078125e-7)), 0x0002);
    // Exactly half of the smallest subnormal ties to even, anything above rounds up.
    assert_eq!(to_half(bits(2.9802322387695313e-8)), 0x0000);
    assert_eq!(to_half(bits(2.98023259404089e-8)), 0x0001);
    assert_eq!(to_half(bits(1e-10)), 0x0000);
    assert_eq!(to_half(bits(-1e-10)), 0x8000);
}

#[test]
fn narrowing_breaks_ties_to_even() {
    // 1 + 2^-11 lies between 0x3c00 and 0x3c01; 1 + 3 * 2^-11 between 0x3c01 and 0x3c02.
    assert_eq!(to_half(bits(1.00048828125)), 0x3c00);
    assert_eq!(to_half(bits(1.00146484375)), 0x3c02);
    // One step above the first tie is nearer to the upper neighbour.
    assert_eq!(to_half(bits(1.00048828125) + 1), 0x3c01);
    assert_eq!(to_half(bits(1.00048828125) - 1), 0x3c00);
    // Rounding may carry into the exponent.
    assert_eq!(to_half(bits(1.9999)), 0x4000);
}

/// The value of a half-precision float, which every single-precision float
/// holds exactly.
fn widen(half: u16) -> f32 {
    let sign = if half & 0x8000 != 0 { -1.0f32 } else { 1.0f32 };
    let exponent = ((half >> 10) & 0x1f) as i32;
    let mantissa = (half & 0x3ff) as f32;
    let magnitude = if exponent == 0 {
        mantissa * 2f32.powi(-24)
    } else if exponent == 31 {
        if mantissa == 0.0 {
            f32::INFINITY
        } else {
            f32::NAN
        }
    } else {
        (1.0 + mantissa / 1024.0) * 2f32.powi(exponent - 15)
    };
    sign * magnitude
}

#[test]
fn narrowing_is_exact_on_every_half() {
    for half in 0..=u16::MAX {
        let wide = widen(half);
        if wide.is_nan() {
            assert_eq!(to_half(bits(wide)) & 0x7fff, 0x7e00, "{:#06x}", half);
        } else {
            assert_eq!(to_half(bits(wide)), half, "{:#06x}", half);
        }
    }
}

#[test]
fn narrowing_rounds_to_the_nearer_neighbour_everywhere() {
    for low in 0..0x7c00u16 {
        let high = low + 1;
        // The upper neighbour of the largest finite half is infinity, which
        // stands where the next power of two would.
        let above = if high == 0x7c00 { 65536.0 } else { widen(high) };
        let middle = (widen(low) + above) / 2.0;
        let even = if low & 1 == 0 { low } else { high };
        assert_eq!(to_half(bits(middle)), even, "{:#06x}", low);
        assert_eq!(to_half(bits(middle) - 1), low, "{:#06x}", low);
        assert_eq!(to_half(bits(middle) + 1), high, "{:#06x}", low);
        assert_eq!(to_half(bits(-middle)), even | 0x8000, "{:#06x}", low);
        assert_eq!(to_half(bits(-middle) - 1), low | 0x8000, "{:#06x}", low);
        assert_eq!(to_half(bits(-middle) + 1), high | 0x8000, "{:#06x}", low);
    }
}

#[test]
fn uniform_block_size_follows_the_layout() {
    assert_eq!(uniform_block_bytes(0, true), 16);
    assert_eq!(uniform_block_bytes(3, true), 28);
    assert_eq!(uniform_block_bytes(0, false), 16);
    assert_eq!(uniform_block_bytes(1, false), 20);
    assert_eq!(uniform_block_bytes(2, false), 20);
    assert_eq!(uniform_block_bytes(3, false), 24);
    assert_eq!(uniform_block_bytes(32, true), 144);
}

#[test]
fn uniform_block_holds_the_frame_state() {
    let mut state = FrameState::new();
    state.set_time_elapsed(bits(1.0));
    state.set_mouse_pos(bits(0.5), bits(0.25));
    state.set_mouse_click(true);
    state
        .set_custom_floats(vec!["gain".to_string(), "speed".to_string()], vec![bits(2.0), bits(-1.0)])
        .unwrap();
    let declared = vec!["speed".to_string(), "other".to_string(), "gain".to_string()];
    let full = state.uniform_block(&declared, true);
    let mut expected = Vec::new();
    expected.extend_from_slice(&1.0f32.to_le_bytes());
    expected.extend_from_slice(&0.5f32.to_le_bytes());
    expected.extend_from_slice(&0.25f32.to_le_bytes());
    expected.extend_from_slice(&1u32.to_le_bytes());
    expected.extend_from_slice(&(-1.0f32).to_le_bytes());
    expected.extend_from_slice(&0.0f32.to_le_bytes());
    expected.extend_from_slice(&2.0f32.to_le_bytes());
    assert_eq!(full, expected);
    let reduced = state.uniform_block(&declared, false);
    assert_eq!(&reduced[..16], &expected[..16]);
    assert_eq!(&reduced[16..], &[0x00, 0xbc, 0x00, 0x00, 0x00, 0x40, 0x00, 0x00]);
    assert_eq!(reduced.len(), 24);
}

#[test]
fn tiles_cover_the_extent() {
    assert_eq!(tile_count(1920, 16), 120);
    assert_eq!(tile_count(1080, 16), 68);
    assert_eq!(tile_count(1, 16), 1);
    assert_eq!(tile_count(0, 16), 0);
    assert_eq!(tile_count(16, 16), 1);
    assert_eq!(tile_count(17, 16), 2);
    assert_eq!(tile_count(u32::MAX, 1), u32::MAX);
    assert_eq!(tile_count(u32::MAX, u32::MAX), 1);
    assert_eq!(tile_count(5, u32::MAX), 1);
    assert_eq!(tile_count(100, 0), 0);
}

#[test]
fn dispatch_size_resolves_against_the_screen() {
    assert_eq!(resolve_dispatch(DispatchSize::Fixed { x: 3, y: 2, z: 1 }, 800, 600), (3, 2, 1));
    assert_eq!(
        resolve_dispatch(DispatchSize::Screen { tile_x: 16, tile_y: 8 }, 800, 600),
        (50, 75, 1)
    );
}

#[test]
fn passes_are_dispatched_in_declared_order() {
    let r = running(
        "#storage acc 1024 array<u32>\n#dispatch A 4 1 1 acc\n#dispatch B 2 2 1 acc\nfn A() {}\nfn B() {}\n",
    );
    let plan = r.frame().unwrap();
    assert_eq!(
        plan.dispatches,
        vec![Dispatch { pass: 0, x: 4, y: 1, z: 1 }, Dispatch { pass: 1, x: 2, y: 2, z: 1 }]
    );
    assert_eq!(plan.uniform.len(), 16);
}

#[test]
fn a_later_pass_sees_what_an_earlier_pass_wrote() {
    let r = running(
        "#storage acc 8 array<u32>\n#dispatch A 1 1 1 acc\n#dispatch B 1 1 1 acc\nfn A() {}\nfn B() {}\n",
    );
    let program = r.program().unwrap();
    assert_eq!(program.passes[0].name, "A");
    assert_eq!(program.passes[1].name, "B");
    assert_eq!(program.passes[1].uses, program.passes[0].uses);
    // A stands in for the device: pass A writes the first word of the buffer,
    // pass B copies it, incremented, into the second.
    let mut acc = [0u32; 2];
    for dispatch in r.frame().unwrap().dispatches {
        match program.passes[dispatch.pass].name.as_str() {
            "A" => acc[0] = 41,
            "B" => acc[1] = acc[0] + 1,
            other => panic!("unknown pass {}", other),
        }
    }
    assert_eq!(acc, [41, 42]);
}

#[test]
fn bind_group_holds_slot_zero_and_each_used_slot_once() {
    assert_eq!(compute_toy::bind::layout_slots(&vec![]), vec![0]);
    assert_eq!(compute_toy::bind::layout_slots(&vec![2, 1, 2, 0, 3, 1]), vec![0, 2, 1, 3]);
}

#[test]
fn accessors_show_the_state() {
    let mut r = running("#uniform gain\n");
    assert_eq!(r.size(), (1280, 720));
    r.resize(640, 480);
    assert_eq!(r.size(), (640, 480));
    r.set_time_elapsed(bits(3.0));
    assert_eq!(r.state().time_elapsed(), bits(3.0));
    assert_eq!(r.program().unwrap().uniforms, vec!["gain"]);
    assert!(Renderer::new(1, 1).program().is_none());
}

#[test]
fn screen_relative_dispatch_follows_resize() {
    let mut r = running("#dispatch main screen 16 16\nfn main() {}\n");
    assert_eq!(r.frame().unwrap().dispatches, vec![Dispatch { pass: 0, x: 80, y: 45, z: 1 }]);
    assert!(r.resize(1920, 1080));
    assert_eq!(r.frame().unwrap().dispatches, vec![Dispatch { pass: 0, x: 120, y: 68, z: 1 }]);
}

#[test]
fn resize_refuses_an_empty_screen() {
    let mut r = running("#dispatch main screen 8 8\n");
    assert!(!r.resize(0, 600));
    assert!(!r.resize(800, 0));
    assert_eq!(r.frame().unwrap().dispatches, vec![Dispatch { pass: 0, x: 160, y: 90, z: 1 }]);
}

#[test]
fn plan_dispatches_covers_every_pass() {
    let program = compute_toy::pp::preprocess(
        "#dispatch a 1 2 3\n#dispatch b screen 10 10\n#dispatch c 0 0 0\n",
        &vec![],
        true,
    )
    .unwrap();
    let plan = plan_dispatches(&program.passes, 25, 5);
    assert_eq!(
        plan,
        vec![
            Dispatch { pass: 0, x: 1, y: 2, z: 3 },
            Dispatch { pass: 1, x: 3, y: 1, z: 1 },
            Dispatch { pass: 2, x: 0, y: 0, z: 0 },
        ]
    );
    assert!(plan_dispatches(&vec![], 25, 5).is_empty());
}

#[test]
fn no_frame_without_a_program() {
    let r = Renderer::new(640, 480);
    assert!(r.frame().is_none());
}

#[test]
fn frame_writes_the_custom_uniforms_of_the_running_program() {
    let mut r = running("#uniform gain\n#dispatch main 1 1 1\n");
    r.set_time_elapsed(bits(2.0));
    r.set_mouse_pos(bits(2.0), bits(0.5));
    r.set_mouse_click(true);
    r.set_custom_floats(vec!["gain".to_string()], vec![bits(0.75)]).unwrap();
    let plan = r.frame().unwrap();
    let mut expected = Vec::new();
    expected.extend_from_slice(&2.0f32.to_le_bytes());
    expected.extend_from_slice(&1.0f32.to_le_bytes());
    expected.extend_from_slice(&0.5f32.to_le_bytes());
    expected.extend_from_slice(&1u32.to_le_bytes());
    expected.extend_from_slice(&0.75f32.to_le_bytes());
    assert_eq!(plan.uniform, expected);
    assert_eq!(
        r.set_custom_floats(vec![], vec![0]),
        Err(FrameError::LengthMismatch { names: 0, values: 1 })
    );
    assert_eq!(r.frame().unwrap().uniform, expected);
}

#[test]
fn precision_takes_effect_on_the_next_build() {
    let mut r = running("#uniform gain\n");
    r.set_custom_floats(vec!["gain".to_string()], vec![bits(1.0)]).unwrap();
    r.set_pass_f32(false);
    assert_eq!(r.frame().unwrap().uniform.len(), 20);
    assert_eq!(&r.frame().unwrap().uniform[16..], &1.0f32.to_le_bytes());
    let expanded = r.preprocess("#uniform gain\n", &vec![]).unwrap();
    assert!(!expanded.full_precision);
    r.finish_build(expanded, None).unwrap();
    assert_eq!(&r.frame().unwrap().uniform[16..], &[0x00, 0x3c, 0x00, 0x00]);
}

#[test]
fn a_hot_recompile_keeps_unchanged_storage() {
    let mut r = running("#storage acc 4096 array<u32>\n#storage tmp 64 u32\n#dispatch main 1 1 1 acc\n");
    let edited = r
        .preprocess("// tuned\n#storage acc 4096 array<u32>\n#storage tmp 128 u32\n#dispatch main 2 1 1 acc\n", &vec![])
        .unwrap();
    let resolution = r.plan_build(&edited, &LIMITS).unwrap();
    assert_eq!(
        resolution.decisions,
        vec![SlotDecision::Keep, SlotDecision::Keep, SlotDecision::Reallocate]
    );
    r.finish_build(edited, None).unwrap();
    assert_eq!(r.frame().unwrap().dispatches, vec![Dispatch { pass: 0, x: 2, y: 1, z: 1 }]);
    let same = r
        .preprocess("#storage acc 4096 array<u32>\n#storage tmp 128 u32\n", &vec![])
        .unwrap();
    assert_eq!(r.plan_build(&same, &LIMITS).unwrap().decisions, vec![SlotDecision::Keep; 3]);
}

#[test]
fn a_rejected_build_leaves_the_running_program() {
    let mut r = running("#dispatch old 7 1 1\n");
    let broken = r.preprocess("a\n#storage s 4 u32\nfn (\n#dispatch new 1 1 1\n", &vec![]).unwrap();
    // Line 9 of the expanded source is the third line of the program.
    assert_eq!(broken.source.lines().nth(9), Some("fn ("));
    let said = CompilerMessage { message: "expected identifier".to_string(), line: 10 };
    let e = r.finish_build(broken, Some(said)).unwrap_err();
    assert_eq!(e.kind, ErrorKind::Compile);
    assert_eq!(e.line, 3);
    assert_eq!(e.summary, "expected identifier");
    assert_eq!(r.frame().unwrap().dispatches, vec![Dispatch { pass: 0, x: 7, y: 1, z: 1 }]);
    let again = r.preprocess("#storage s 4 u32\n", &vec![]).unwrap();
    assert_eq!(
        r.plan_build(&again, &LIMITS).unwrap().decisions,
        vec![SlotDecision::Keep, SlotDecision::Reallocate]
    );
}

#[test]
fn a_compiler_message_without_a_line_is_located_at_zero() {
    let mut r = Renderer::new(8, 8);
    for line in [0usize, 3, 9, usize::MAX] {
        let p = r.preprocess("x\n", &vec![]).unwrap();
        let e = r.finish_build(p, Some(CompilerMessage { message: "m".to_string(), line })).unwrap_err();
        assert_eq!(e.line, 0, "{}", line);
    }
    let p = r.preprocess("x\n", &vec![]).unwrap();
    let e = r.finish_build(p, Some(CompilerMessage { message: "m".to_string(), line: 8 })).unwrap_err();
    assert_eq!(e.line, 1);
    assert!(r.frame().is_none());
}

#[test]
fn a_binding_beyond_the_limits_fails_the_build_plan() {
    let r = Renderer::new(8, 8);
    let p = r.preprocess("\n#texture t 9000 9000\n", &vec![]).unwrap();
    let e = r.plan_build(&p, &LIMITS).unwrap_err();
    assert_eq!(e.kind, ErrorKind::ResourceLimit);
    assert_eq!(e.line, 2);
    let ok = r.preprocess("#texture t 8192 8192\n", &vec![]).unwrap();
    assert_eq!(
        r.plan_build(&ok, &LIMITS).unwrap().table[1],
        BindingKind::StorageTexture { width: 8192, height: 8192 }
    );
}

#[test]
fn metadata_sets_uniforms_and_precision() {
    let mut r = running("#uniform gain\n");
    let meta = ShaderMeta {
        uniforms: vec![Uniform { name: "gain".to_string(), value: bits(4.0) }],
        textures: vec![],
        float32_enabled: false,
    };
    r.apply_metadata(&meta).unwrap();
    assert_eq!(&r.frame().unwrap().uniform[16..], &4.0f32.to_le_bytes());
    assert!(!r.preprocess("", &vec![]).unwrap().full_precision);
    // Metadata without uniforms leaves the values as they are.
    let bare = ShaderMeta { uniforms: vec![], textures: vec![], float32_enabled: true };
    r.apply_metadata(&bare).unwrap();
    assert_eq!(&r.frame().unwrap().uniform[16..], &4.0f32.to_le_bytes());
    assert!(r.preprocess("", &vec![]).unwrap().full_precision);
}

#[test]
fn metadata_with_texture_channels_is_refused() {
    let mut r = running("#uniform gain\n");
    let meta = ShaderMeta {
        uniforms: vec![Uniform { name: "gain".to_string(), value: bits(4.0) }],
        textures: vec![Texture { img: "noise.png".to_string() }],
        float32_enabled: false,
    };
    let e = r.apply_metadata(&meta).unwrap_err();
    assert_eq!(e.kind, ErrorKind::ConfigurationMismatch);
    assert_eq!(e.summary, "texture from url not supported");
    assert_eq!(&r.frame().unwrap().uniform[16..], &0.0f32.to_le_bytes());
    assert!(r.preprocess("", &vec![]).unwrap().full_precision);
}

#[test]
fn the_first_plain_format_is_preferred() {
    let rgba = FramebufferFormat::Rgba8Unorm;
    let bgra = FramebufferFormat::Bgra8Unorm;
    let other = FramebufferFormat::Other;
    assert_eq!(preferred_framebuffer_format(&[other, bgra, rgba]), 1);
    assert_eq!(preferred_framebuffer_format(&[rgba, bgra]), 0);
    assert_eq!(preferred_framebuffer_format(&[other, other, rgba]), 2);
    assert_eq!(preferred_framebuffer_format(&[other, other]), 0);
    assert_eq!(preferred_framebuffer_format(&[other]), 0);
}

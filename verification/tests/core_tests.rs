use cargo_slide::animation::{RenderContext, SlideSurface, StepMask};
use cargo_slide::effects::{
    dissolve_rank_at, render_region, ComponentFadeIn, ComponentSlideUp, CrossFade, Cube3D, InstantCut,
    ParticleDissolve, RegionEffect, SlideDown, SlideLeft, SlideRight, SlideUp, ZoomWipe,
};
use cargo_slide::navigation::{initial_state, navigate, reload_state, NavInput, NavState};
use cargo_slide::pixel::{blend_pixel_255, blend_pixel_fast};
use cargo_slide::hud::draw_char;
use cargo_slide::effects::{reveal_named, transition_named, ComponentTypewriter, RevealKind, TransitionKind};

fn surface(width: usize, height: usize, base: u32) -> SlideSurface {
    let mut pixels = Vec::new();
    for i in 0..width * height {
        pixels.push(base + i as u32);
    }
    SlideSurface::new(width, height, pixels, 0xFF000000)
}

#[test]
fn blend_pixel_fast_exact_values() {
    assert_eq!(blend_pixel_fast(0xFF000000, 0xFFFFFFFF, 256), 0xFFFFFFFF);
    assert_eq!(blend_pixel_fast(0xFF000000, 0xFFFFFFFF, 0), 0xFF000000);
    assert_eq!(blend_pixel_fast(0xFF000000, 0xFFFF8040, 128), 0xFF7F4020);
    assert_eq!(blend_pixel_fast(0x00102030, 0xFF102030, 999), 0xFF102030);
    assert_eq!(blend_pixel_255(0xFF000000, 0xFFFFFFFF, 255), 0xFFFFFFFF);
    assert_eq!(blend_pixel_255(0xFF646464, 0xFF000000, 51), 0xFF505050);
}

#[test]
fn surface_pixels_and_rects() {
    let mut s = SlideSurface::blank(4, 3, 0xFF111111);
    assert_eq!(s.pixels.len(), 12);
    s.set_pixel(1, 1, 0xFFABCDEF);
    assert_eq!(s.get_pixel(1, 1), 0xFFABCDEF);
    assert_eq!(s.get_pixel(4, 0), 0);
    s.set_pixel(9, 9, 0xFF000000);
    s.fill_rect(2, 1, 5, 5, 0xFF222222);
    assert_eq!(s.get_pixel(2, 2), 0xFF222222);
    assert_eq!(s.get_pixel(3, 1), 0xFF222222);
    assert_eq!(s.get_pixel(1, 2), 0xFF111111);
    let src = surface(2, 2, 0xFF000100);
    s.copy_rect(&src, 0, 0, 3, 2, 2, 2);
    assert_eq!(s.get_pixel(3, 2), 0xFF000100);
    assert_eq!(s.get_pixel(2, 2), 0xFF222222);
}

#[test]
fn mask_steps_hides_future_steps_only() {
    let mut s = SlideSurface::blank(4, 4, 0xFFFFFFFF);
    let steps = [
        StepMask { order: 1, left: 0, top: 0, right: 2, bottom: 2 },
        StepMask { order: 2, left: 2, top: 2, right: 9, bottom: 9 },
    ];
    s.mask_steps(&steps, 1, 0xFF000000);
    assert_eq!(s.get_pixel(0, 0), 0xFFFFFFFF);
    assert_eq!(s.get_pixel(3, 3), 0xFF000000);
    assert_eq!(s.get_pixel(2, 2), 0xFF000000);
    assert_eq!(s.get_pixel(1, 3), 0xFFFFFFFF);
}

#[test]
fn render_context_basics() {
    let mut buf = vec![0u32; 6];
    {
        let mut ctx = RenderContext::new(3, 2, &mut buf);
        ctx.clear(0xFF010101);
        ctx.set_pixel(2, 1, 0xFF0000FF);
        assert_eq!(ctx.get_pixel(2, 1), 0xFF0000FF);
        assert_eq!(ctx.get_pixel(3, 1), 0);
        ctx.fill_rect(1, 0, usize::MAX, 1, 0xFF00FF00);
    }
    assert_eq!(buf, vec![0xFF010101, 0xFF00FF00, 0xFF00FF00, 0xFF010101, 0xFF010101, 0xFF0000FF]);
    let to = surface(2, 2, 0xFF000000);
    {
        let mut ctx = RenderContext::new(3, 2, &mut buf);
        ctx.copy_from(&to);
    }
    assert_eq!(&buf[..4], &[0xFF000000, 0xFF000001, 0xFF000002, 0xFF000003]);
    assert_eq!(buf[5], 0xFF0000FF);
}

#[test]
fn push_transitions_shift_by_the_offset() {
    let from = surface(4, 1, 0xFF000010);
    let to = surface(4, 1, 0xFF000020);
    let mut buf = vec![0u32; 4];
    {
        let mut ctx = RenderContext::new(4, 1, &mut buf);
        SlideLeft.render(&mut ctx, Some(&from), &to, 1);
    }
    assert_eq!(buf, vec![0xFF000011, 0xFF000012, 0xFF000013, 0xFF000020]);
    {
        let mut ctx = RenderContext::new(4, 1, &mut buf);
        SlideRight.render(&mut ctx, Some(&from), &to, 1);
    }
    assert_eq!(buf, vec![0xFF000023, 0xFF000010, 0xFF000011, 0xFF000012]);
    {
        let mut ctx = RenderContext::new(4, 1, &mut buf);
        SlideLeft.render(&mut ctx, None, &to, 0);
    }
    assert_eq!(buf, vec![0, 0, 0, 0]);
    let from_v = surface(1, 3, 0xFF000010);
    let to_v = surface(1, 3, 0xFF000020);
    let mut col = vec![0u32; 3];
    {
        let mut ctx = RenderContext::new(1, 3, &mut col);
        SlideUp.render(&mut ctx, Some(&from_v), &to_v, 2);
    }
    assert_eq!(col, vec![0xFF000012, 0xFF000020, 0xFF000021]);
    {
        let mut ctx = RenderContext::new(1, 3, &mut col);
        SlideDown.render(&mut ctx, Some(&from_v), &to_v, 3);
    }
    assert_eq!(col, vec![0xFF000020, 0xFF000021, 0xFF000022]);
}

#[test]
fn crossfade_and_cut() {
    let from = SlideSurface::new(2, 1, vec![0xFF000000, 0xFF000000], 0);
    let to = SlideSurface::new(2, 1, vec![0xFFFFFFFF, 0xFF646464], 0);
    let mut buf = vec![7u32; 3];
    {
        let mut ctx = RenderContext::new(3, 1, &mut buf);
        CrossFade.render(&mut ctx, Some(&from), &to, 255);
    }
    assert_eq!(buf, vec![0xFFFFFFFF, 0xFF646464, 7]);
    {
        let mut ctx = RenderContext::new(3, 1, &mut buf);
        CrossFade.render(&mut ctx, None, &to, 0);
    }
    assert_eq!(buf, vec![0xFF000000, 0xFF000000, 7]);
    {
        let mut ctx = RenderContext::new(3, 1, &mut buf);
        InstantCut.render(&mut ctx, &to);
    }
    assert_eq!(buf, vec![0xFFFFFFFF, 0xFF646464, 7]);
}

#[test]
fn dissolve_follows_the_rank() {
    let from = surface(3, 2, 0xFF000010);
    let to = surface(3, 2, 0xFF000020);
    let mut buf = vec![0u32; 6];
    {
        let mut ctx = RenderContext::new(3, 2, &mut buf);
        ParticleDissolve.render(&mut ctx, Some(&from), &to, 500);
    }
    for y in 0..2 {
        for x in 0..3 {
            let i = y * 3 + x;
            let expected = if dissolve_rank_at(x, y) < 500 { to.pixels[i] } else { from.pixels[i] };
            assert_eq!(buf[i], expected);
        }
    }
    assert!(dissolve_rank_at(0, 0) < 1000);
    {
        let mut ctx = RenderContext::new(3, 2, &mut buf);
        ParticleDissolve.render(&mut ctx, Some(&from), &to, 1000);
    }
    assert_eq!(buf, to.pixels);
}

#[test]
fn effect_names_and_durations() {
    assert_eq!(InstantCut.name(), "cut");
    assert_eq!(InstantCut.duration_ms(), 0);
    assert_eq!(CrossFade.name(), "fade");
    assert_eq!(CrossFade.duration_ms(), 400);
    assert_eq!(ZoomWipe.name(), "zoom");
    assert_eq!(Cube3D.duration_ms(), 500);
    assert_eq!(ComponentFadeIn.name(), "fade-in");
    assert_eq!(ComponentFadeIn.duration_ms(), 300);
}

#[test]
fn component_reveals_stay_in_their_rectangle() {
    let slide = surface(3, 3, 0xFF000000);
    let mut out = vec![0xFFAAAAAAu32; 9];
    ComponentFadeIn.render(255, 1, 1, 9, 9, &slide, &mut out, 3, 3, 0xFF000000);
    assert_eq!(out[0], 0xFFAAAAAA);
    assert_eq!(out[4], slide.pixels[4]);
    assert_eq!(out[8], slide.pixels[8]);
    let mut out2 = vec![0u32; 9];
    ComponentSlideUp.render(255, 1, 0, 0, 2, 3, &slide, &mut out2, 3, 3, 0xFF000000);
    assert_eq!(out2[0], slide.pixels[3]);
    assert_eq!(out2[3], slide.pixels[6]);
    assert_eq!(out2[6], 0xFF000000);
    assert_eq!(out2[2], 0);
    let mut out3 = vec![0u32; 9];
    render_region(RegionEffect::FadeIn(0), 0, 0, 1, 1, &slide, &mut out3, 3, 3, 0xFF123456);
    assert_eq!(out3[0], 0xFF123456);
}

#[test]
fn navigation_steps_and_slides() {
    let steps = [2usize, 0, 1];
    let s = initial_state(&steps);
    assert_eq!(s, NavState { current_idx: 0, current_step: 1 });
    let fwd = NavInput { forward: true, backward: false, jump: None };
    let back = NavInput { forward: false, backward: true, jump: None };
    let o = navigate(s, &steps, fwd);
    assert_eq!(o.state, NavState { current_idx: 0, current_step: 2 });
    assert_eq!(o.revealed_step, Some(2));
    assert!(!o.slide_changed);
    let o = navigate(o.state, &steps, fwd);
    assert_eq!(o.state, NavState { current_idx: 1, current_step: 0 });
    assert!(o.slide_changed);
    let o2 = navigate(o.state, &steps, back);
    assert_eq!(o2.state, NavState { current_idx: 0, current_step: 2 });
    assert!(o2.moved_back);
    let o = navigate(o.state, &steps, fwd);
    assert_eq!(o.state, NavState { current_idx: 2, current_step: 1 });
    let end = navigate(o.state, &steps, fwd);
    assert_eq!(end.state, o.state);
    assert!(!end.slide_changed);
    let jump = navigate(o.state, &steps, NavInput { forward: false, backward: false, jump: Some(0) });
    assert_eq!(jump.state, NavState { current_idx: 0, current_step: 1 });
    let far = navigate(o.state, &steps, NavInput { forward: false, backward: false, jump: Some(7) });
    assert_eq!(far.state, o.state);
    assert_eq!(reload_state(NavState { current_idx: 2, current_step: 1 }, &[3, 3]), NavState {
        current_idx: 1,
        current_step: 1,
    });
    assert_eq!(reload_state(NavState { current_idx: 0, current_step: 3 }, &[]), NavState {
        current_idx: 0,
        current_step: 0,
    });
}

#[test]
fn forward_then_backward_restores_the_position() {
    let steps = [3usize, 0, 2, 1];
    let fwd = NavInput { forward: true, backward: false, jump: None };
    let back = NavInput { forward: false, backward: true, jump: None };
    let positions = [
        NavState { current_idx: 0, current_step: 1 },
        NavState { current_idx: 0, current_step: 3 },
        NavState { current_idx: 1, current_step: 0 },
        NavState { current_idx: 2, current_step: 2 },
    ];
    for p in positions {
        let there = navigate(p, &steps, fwd).state;
        assert_eq!(navigate(there, &steps, back).state, p);
    }
}

#[test]
fn test_transition_rendering() {
    let width = 10;
    let height = 10;

    let from = SlideSurface::blank(width, height, 0xFF000000);
    let to = SlideSurface::blank(width, height, 0xFFFFFFFF);

    let mut output = vec![0u32; width * height];

    // Progress 0.0 is a cross-fade weight of 0 out of 255: the outgoing slide.
    {
        let mut ctx = RenderContext::new(width, height, &mut output);
        CrossFade.render(&mut ctx, Some(&from), &to, 0);
    }
    assert_eq!(output[0], 0xFF000000);

    // Progress 1.0 is the full weight 255: the incoming slide.
    {
        let mut ctx = RenderContext::new(width, height, &mut output);
        CrossFade.render(&mut ctx, Some(&from), &to, 255);
    }
    assert_eq!(output[0], 0xFFFFFFFF);
}

#[test]
fn blend_endpoints_and_channel_bounds() {
    assert_eq!(blend_pixel_fast(0x12345678, 0x9ABCDEF0, 0), 0xFF345678);
    assert_eq!(blend_pixel_fast(0x12345678, 0x9ABCDEF0, 300), 0xFFBCDEF0);
    let r = blend_pixel_fast(0x00102030, 0x00F0E0D0, 77);
    assert_eq!(r >> 24, 0xFF);
    for shift in [0u32, 8, 16] {
        let (a, b, m) = ((0x00102030u32 >> shift) & 0xFF, (0x00F0E0D0u32 >> shift) & 0xFF, (r >> shift) & 0xFF);
        assert!(a.min(b) <= m && m <= a.max(b));
    }
}

#[test]
fn draw_char_box_case_and_space() {
    let (w, h) = (12usize, 10usize);
    let mut lower = vec![7u32; w * h];
    let mut upper = vec![7u32; w * h];
    draw_char(&mut lower, w, h, 3, 2, 'a', 0xFFFFFFFF);
    draw_char(&mut upper, w, h, 3, 2, 'A', 0xFFFFFFFF);
    assert_eq!(lower, upper);
    let mut changed = 0;
    for i in 0..w * h {
        if lower[i] != 7 {
            changed += 1;
            assert_eq!(lower[i], 0xFFFFFFFF);
            let (x, y) = (i % w, i / w);
            assert!((3..8).contains(&x) && (2..9).contains(&y));
        }
    }
    assert!(changed > 0);
    let mut blank = vec![7u32; w * h];
    draw_char(&mut blank, w, h, 3, 2, ' ', 0xFFFFFFFF);
    assert!(blank.iter().all(|&p| p == 7));
}

#[test]
fn registry_lookups_fall_back() {
    assert_eq!(transition_named("cube"), TransitionKind::Cube);
    assert_eq!(transition_named("slide-left"), TransitionKind::SlideLeft);
    assert_eq!(transition_named("fade"), TransitionKind::Fade);
    assert_eq!(transition_named("spin"), TransitionKind::Fade);
    assert_eq!(reveal_named("zoom-in"), RevealKind::ZoomIn);
    assert_eq!(reveal_named("wipe"), RevealKind::Wipe);
    assert_eq!(reveal_named("zoom"), RevealKind::FadeIn);
}

#[test]
fn typewriter_reveals_whole_cells_from_the_left() {
    let slide = surface(20, 2, 0xFF000000);
    let mut out = vec![0u32; 40];
    ComponentTypewriter.render(1, 2, 0, 19, 1, &slide, &mut out, 20, 2, 0xFF111111);
    for x in 0..20 {
        let expected = if x < 2 || x >= 19 { 0 } else if x < 10 { slide.pixels[x] } else { 0xFF111111 };
        assert_eq!(out[x], expected, "column {x}");
        assert_eq!(out[20 + x], 0);
    }
    assert_eq!(reveal_named("typewriter"), RevealKind::Typewriter);
    let mut all = vec![0u32; 40];
    ComponentTypewriter.render(usize::MAX, 0, 0, 20, 2, &slide, &mut all, 20, 2, 0xFF111111);
    assert_eq!(all, slide.pixels);
}

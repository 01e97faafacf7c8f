use morphogen_render::error::RenderError;
use morphogen_render::field_particles::{
    advance_field_particles, initialize_field_particles, render_field_particles, splat_particles, FieldParticleSettings,
    PlacedParticle,
};
use morphogen_render::image::ImageBufferBits;

const ONE: u32 = 0x3f80_0000;

fn gradient(width: u32, height: u32) -> ImageBufferBits {
    let mut pixels = Vec::new();
    for y in 0..height {
        for x in 0..width {
            let u = x as f32 / (width.max(2) - 1) as f32;
            let v = y as f32 / (height.max(2) - 1) as f32;
            pixels.push([u.to_bits(), v.to_bits(), (1.0 - u).to_bits(), 1.0f32.to_bits()]);
        }
    }
    ImageBufferBits::new(width, height, pixels).expect("gradient")
}

#[test]
fn initial_grid_count_matches_spacing() {
    let src = gradient(32, 32);
    let settings = FieldParticleSettings { spacing: 8, ..FieldParticleSettings::default() };
    let field = initialize_field_particles(&src, settings).expect("init");
    // 32 / 8 = 4 columns and 4 rows.
    assert_eq!(field.particle_count(), 16);
}

#[test]
fn partial_cells_still_seed_a_particle() {
    let src = gradient(10, 5);
    let settings = FieldParticleSettings { spacing: 4, ..FieldParticleSettings::default() };
    let field = initialize_field_particles(&src, settings).expect("init");
    // columns at 0, 4, 8 and rows at 0, 4.
    assert_eq!(field.particle_count(), 6);
    let origins: Vec<(f32, f32)> = field.particles.iter().map(|p| (f32::from_bits(p.x), f32::from_bits(p.y))).collect();
    assert_eq!(origins, vec![(0.0, 0.0), (4.0, 0.0), (8.0, 0.0), (0.0, 4.0), (4.0, 4.0), (8.0, 4.0)]);
    assert_eq!(field.particles[4].color, src.pixels[4 * 10 + 4]);
}

#[test]
fn invalid_particle_settings_are_refused() {
    let src = gradient(8, 8);
    let settings = FieldParticleSettings { spacing: 0, ..FieldParticleSettings::default() };
    assert!(matches!(
        initialize_field_particles(&src, settings),
        Err(RenderError::InvalidCoagulationSettings(_))
    ));
}

#[test]
fn frame_zero_grid_tiles_the_canvas_when_size_equals_spacing() {
    let src = gradient(12, 9);
    let settings = FieldParticleSettings { spacing: 4, particle_size: 4, ..FieldParticleSettings::default() };
    let field = initialize_field_particles(&src, settings).expect("init");
    let frame = render_field_particles(&field, settings);
    assert_eq!((frame.width, frame.height), (12, 9));
    for y in 0..9u32 {
        for x in 0..12u32 {
            let origin = (y / 4 * 4) * 12 + x / 4 * 4;
            assert_eq!(frame.pixels[(y * 12 + x) as usize], src.pixels[origin as usize]);
        }
    }
}

#[test]
fn small_particles_leave_black_between_them() {
    let src = gradient(8, 8);
    let settings = FieldParticleSettings { spacing: 4, particle_size: 1, ..FieldParticleSettings::default() };
    let field = initialize_field_particles(&src, settings).expect("init");
    let frame = render_field_particles(&field, settings);
    assert_eq!(frame.pixels[0], src.pixels[0]);
    assert_eq!(frame.pixels[1], [0, 0, 0, ONE]);
    assert_eq!(frame.pixels[4 * 8 + 4], src.pixels[4 * 8 + 4]);
    assert_eq!(frame.pixels[5 * 8 + 5], [0, 0, 0, ONE]);
}

#[test]
fn later_particles_win_overlaps_and_edges_clip() {
    let red = [ONE, 0, 0, ONE];
    let green = [0, ONE, 0, ONE];
    let particles = vec![
        PlacedParticle { x: 0, y: 0, color: red },
        PlacedParticle { x: 1, y: -1, color: green },
    ];
    let frame = splat_particles(3, 2, &particles, 2);
    let black = [0, 0, 0, ONE];
    assert_eq!(frame.pixels, vec![red, green, green, red, red, black]);
    // A zero size splats single pixels.
    let frame = splat_particles(3, 2, &particles, 0);
    assert_eq!(frame.pixels, vec![red, black, black, black, black, black]);
}

#[test]
fn zero_advect_holds_the_grid_byte_identical() {
    // advect 0: the particles never move, whatever move is offered.
    let src = gradient(48, 48);
    let settings = FieldParticleSettings { advect: 0.0f32.to_bits(), ..FieldParticleSettings::default() };
    let mut field = initialize_field_particles(&src, settings).expect("init");
    let frame0 = render_field_particles(&field, settings);
    let elsewhere = vec![[7.5f32.to_bits(), 3.25f32.to_bits()]; field.particle_count()];
    advance_field_particles(&mut field, settings, &elsewhere).expect("advance");
    let frame5 = render_field_particles(&field, settings);
    assert_eq!(frame0.pixels, frame5.pixels);
}

#[test]
fn frame_zero_is_independent_of_advect() {
    let src = gradient(40, 40);
    let off = FieldParticleSettings { advect: 0.0f32.to_bits(), ..FieldParticleSettings::default() };
    let on = FieldParticleSettings { advect: 9.0f32.to_bits(), ..FieldParticleSettings::default() };
    let off_frame = render_field_particles(&initialize_field_particles(&src, off).expect("init"), off);
    let on_frame = render_field_particles(&initialize_field_particles(&src, on).expect("init"), on);
    assert_eq!(off_frame.pixels, on_frame.pixels);
}

#[test]
fn moved_particles_keep_their_colour_and_splat_at_the_rounded_position() {
    let src = gradient(8, 8);
    let settings = FieldParticleSettings { spacing: 4, particle_size: 1, ..FieldParticleSettings::default() };
    let mut field = initialize_field_particles(&src, settings).expect("init");
    let colors: Vec<[u32; 4]> = field.particles.iter().map(|p| p.color).collect();
    let moved: Vec<[u32; 2]> = field
        .particles
        .iter()
        .map(|p| [(f32::from_bits(p.x) + 1.6).to_bits(), (f32::from_bits(p.y) + 0.4).to_bits()])
        .collect();
    advance_field_particles(&mut field, settings, &moved).expect("advance");
    assert_eq!(field.particles.iter().map(|p| p.color).collect::<Vec<_>>(), colors);
    assert_eq!(f32::from_bits(field.particles[0].x), 1.6);
    let frame = render_field_particles(&field, settings);
    // The particle seeded at (0, 0) now splats at (2, 0).
    assert_eq!(frame.pixels[2], src.pixels[0]);
    assert_eq!(frame.pixels[0], [0, 0, 0, ONE]);
    let bad = FieldParticleSettings { spacing: 0, ..settings };
    let before = field.clone();
    assert!(advance_field_particles(&mut field, bad, &moved).is_err());
    assert_eq!(field, before);
}

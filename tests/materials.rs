use pathtracer::color::{Color, ColorU8};
use pathtracer::material::{Dielectric, Diffuse, Emmisive, Material, Metal};

fn orange() -> Color<f32> {
    Color::rgba(1.0, 0.5, 0.0, 1.0)
}

#[test]
fn diffuse_scatters_with_its_color() {
    let m = Diffuse::new(orange());
    assert_eq!(m.color(), orange());
    assert_eq!(m.attenuation(true), Some(orange()));
    assert_eq!(m.attenuation(false), Some(orange()));
}

#[test]
fn metal_absorbs_rays_into_the_surface() {
    let m = Metal::new(orange(), 0.3);
    assert_eq!(m.fuzz, 0.3);
    assert_eq!(m.attenuation(true), Some(orange()));
    assert_eq!(m.attenuation(false), None);
}

#[test]
fn dielectric_never_absorbs() {
    let m = Dielectric::new(orange(), 0.05, 2.417);
    assert_eq!(m.refraction_index, 2.417);
    assert_eq!(m.attenuation(false), Some(orange()));
    assert_eq!(m.attenuation(true), Some(orange()));
}

#[test]
fn emissive_never_scatters() {
    let m = Emmisive::new(orange(), 2.3);
    assert_eq!(m.intensity, 2.3);
    assert_eq!(m.color(), orange());
    assert_eq!(m.attenuation(true), None);
    assert_eq!(m.attenuation(false), None);
}

#[test]
fn attenuation_never_exceeds_the_color() {
    let c = Color::rgba(0.2f32, 0.9, 0.4, 1.0);
    let ms: Vec<Option<Color<f32>>> = vec![
        Diffuse::new(c).attenuation(true),
        Metal::new(c, 0.0).attenuation(true),
    ];
    for a in ms.into_iter().flatten() {
        assert!(a.r <= c.r && a.g <= c.g && a.b <= c.b);
    }
}

#[test]
fn color_channels_in_order() {
    let c: ColorU8 = Color::rgba(127, 127, 127, 255);
    assert_eq!(c.to_array(), [127, 127, 127, 255]);
    assert_eq!(c, Color { r: 127, g: 127, b: 127, a: 255 });
}

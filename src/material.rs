use vstd::prelude::*;
use crate::color::Color;

verus! {

/// A surface's scattering law, as far as it decides whether a path goes on and with
/// which attenuation; the outgoing direction is drawn by the caller.
pub trait Material<T: Copy> {
    /// The base albedo.
    spec fn albedo(&self) -> Color<T>;

    /// Whether the surface scatters a path, given whether the drawn outgoing direction
    /// leaves the surface (points to the side of the true surface normal).
    spec fn scatters(&self, leaves_surface: bool) -> bool;

    fn color(&self) -> (c: Color<T>)
        ensures
            c == self.albedo(),
    ;

    /// The attenuation of a scattered path, or `None` when the surface absorbs it.
    fn attenuation(&self, leaves_surface: bool) -> (r: Option<Color<T>>)
        ensures
            r == (if self.scatters(leaves_surface) {
                Some(self.albedo())
            } else {
                None
            }),
    ;
}

/// Ideal matte scattering around the surface normal; never absorbs.
#[derive(Debug, Copy, Clone)]
pub struct Diffuse<T> {
    pub color: Color<T>,
}

/// A light source: it emits `color` times `intensity` and scatters nothing.
#[derive(Debug, Copy, Clone)]
pub struct Emmisive<T> {
    pub color: Color<T>,
    pub intensity: T,
}

/// Mirror reflection perturbed by `fuzz`; absorbs a path whose perturbed direction
/// points into the surface.
#[derive(Debug, Copy, Clone)]
pub struct Metal<T> {
    pub color: Color<T>,
    pub fuzz: T,
}

/// Glass-like reflection or refraction with the given refraction index, perturbed by
/// `fuzz`; never absorbs.
#[derive(Debug, Copy, Clone)]
pub struct Dielectric<T> {
    pub color: Color<T>,
    pub fuzz: T,
    pub refraction_index: T,
}

impl<T: Copy> Diffuse<T> {
    pub fn new(color: Color<T>) -> (m: Self)
        ensures
            m.color == color,
    {
        Diffuse { color }
    }
}

impl<T: Copy> Emmisive<T> {
    pub fn new(color: Color<T>, intensity: T) -> (m: Self)
        ensures
            m.color == color,
            m.intensity == intensity,
    {
        Emmisive { color, intensity }
    }
}

impl<T: Copy> Metal<T> {
    pub fn new(color: Color<T>, fuzz: T) -> (m: Self)
        ensures
            m.color == color,
            m.fuzz == fuzz,
    {
        Metal { color, fuzz }
    }
}

impl<T: Copy> Dielectric<T> {
    pub fn new(color: Color<T>, fuzz: T, refraction_index: T) -> (m: Self)
        ensures
            m.color == color,
            m.fuzz == fuzz,
            m.refraction_index == refraction_index,
    {
        Dielectric { color, fuzz, refraction_index }
    }
}

impl<T: Copy> Material<T> for Diffuse<T> {
    open spec fn albedo(&self) -> Color<T> {
        self.color
    }

    open spec fn scatters(&self, leaves_surface: bool) -> bool {
        true
    }

    fn color(&self) -> (c: Color<T>) {
        self.color
    }

    fn attenuation(&self, leaves_surface: bool) -> (r: Option<Color<T>>) {
        Some(self.color)
    }
}

impl<T: Copy> Material<T> for Emmisive<T> {
    open spec fn albedo(&self) -> Color<T> {
        self.color
    }

    open spec fn scatters(&self, leaves_surface: bool) -> bool {
        false
    }

    fn color(&self) -> (c: Color<T>) {
        self.color
    }

    fn attenuation(&self, leaves_surface: bool) -> (r: Option<Color<T>>) {
        None
    }
}

impl<T: Copy> Material<T> for Metal<T> {
    open spec fn albedo(&self) -> Color<T> {
        self.color
    }

    open spec fn scatters(&self, leaves_surface: bool) -> bool {
        leaves_surface
    }

    fn color(&self) -> (c: Color<T>) {
        self.color
    }

    fn attenuation(&self, leaves_surface: bool) -> (r: Option<Color<T>>) {
        if leaves_surface {
            Some(self.color)
        } else {
            None
        }
    }
}

impl<T: Copy> Material<T> for Dielectric<T> {
    open spec fn albedo(&self) -> Color<T> {
        self.color
    }

    open spec fn scatters(&self, leaves_surface: bool) -> bool {
        true
    }

    fn color(&self) -> (c: Color<T>) {
        self.color
    }

    fn attenuation(&self, leaves_surface: bool) -> (r: Option<Color<T>>) {
        Some(self.color)
    }
}

/// No energy gain: whenever a diffuse or metal surface scatters, the attenuation is its
/// own color, channel by channel, so it never exceeds it; a diffuse surface always
/// scatters, a metal one exactly when the drawn direction leaves the surface; and an
/// emissive surface never scatters, so it contributes through its emission alone.
pub proof fn lemma_no_energy_gain<T: Copy>(d: Diffuse<T>, m: Metal<T>, e: Emmisive<T>, leaves_surface: bool)
    ensures
        d.scatters(leaves_surface) && d.albedo() == d.color,
        m.scatters(leaves_surface) == leaves_surface && m.albedo() == m.color,
        !e.scatters(leaves_surface),
{
}

} // verus!

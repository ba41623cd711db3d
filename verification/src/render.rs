//! Hit resolution and shading: scanning every element for the closest
//! valid intersection, turning the winner into a `Hit`, and shading it
//! into a colour; plus the per-frame pixel fill the pipeline drives.

use vstd::prelude::*;
use crate::color::Color;
use crate::element::Element;
use crate::fixed::{fmul, SCALE};
use crate::light::Light;
use crate::material::Material;
use crate::pipeline::Frame;
use crate::projection::Projection;
use crate::ray::{point_at, Ray, HIT_EPSILON, MAX_T};
use crate::scene::Scene;
use crate::vec3::{bounded, norm_sq, Vec3};

verus! {

/// One resolved ray/element intersection.
#[derive(Debug)]
pub struct Hit {
    pub element_id: u32,
    pub element_index: usize,
    pub dist: i64,
    pub pos: Vec3,
    pub norm: Vec3,
    pub projection: Projection,
}

impl Hit {
    pub fn dist(&self) -> (r: i64)
        ensures
            r == self.dist,
    {
        self.dist
    }

    pub fn pos(&self) -> (r: &Vec3)
        ensures
            *r == self.pos,
    {
        &self.pos
    }

    pub fn norm(&self) -> (r: &Vec3)
        ensures
            *r == self.norm,
    {
        &self.norm
    }

    pub fn element_id(&self) -> (r: u32)
        ensures
            r == self.element_id,
    {
        self.element_id
    }
}

/// Whether element `j`'s intersection goes through the displacement
/// resolver: its material names a height map the scene actually has.
pub open spec fn displaced_used(s: Scene, j: int) -> bool {
    match s.elements@[j].material.displacement {
        Some(tid) => tid < s.textures@.len(),
        None => false,
    }
}

/// The provable first-hit distance of element `j`, where one exists in
/// closed form (not the implicit surface, not a displaced sphere).
pub open spec fn scan_first(s: Scene, j: int, r: Ray) -> Option<int> {
    if displaced_used(s, j) {
        None
    } else {
        s.elements@[j].shape.det_first(r)
    }
}

/// The certificate a winning distance carries for element `j`.
pub open spec fn may_scan(s: Scene, j: int, r: Ray, t: int) -> bool {
    if displaced_used(s, j) {
        s.elements@[j].shape.may_first_displaced(r, t)
    } else {
        s.elements@[j].shape.may_first(r, t)
    }
}

/// No closed-form element intersects the ray.
pub open spec fn scan_misses(s: Scene, r: Ray) -> bool {
    forall|j: int| 0 <= j < s.elements@.len() ==> #[trigger] scan_first(s, j, r) is None
}

/// Everything `get_closest_hit` certifies of a returned hit: the winner
/// identifies a real element, carries that element's certificate, is no
/// farther than any closed-form element's first root (strictly closer
/// than any earlier element's, so ties go to the earliest), and its
/// position, normal and texture frame are exactly the winning shape's.
pub open spec fn closest_hit_found(s: Scene, r: Ray, h: Hit) -> bool {
    &&& h.element_index < s.elements@.len()
    &&& h.element_id == s.elements@[h.element_index as int].id
    &&& HIT_EPSILON < h.dist <= MAX_T
    &&& may_scan(s, h.element_index as int, r, h.dist as int)
    &&& forall|j: int|
        0 <= j < s.elements@.len() ==> match #[trigger] scan_first(s, j, r) {
            Some(d) => h.dist <= d,
            None => true,
        }
    &&& forall|j: int|
        0 <= j < h.element_index ==> match #[trigger] scan_first(s, j, r) {
            Some(d) => h.dist < d,
            None => true,
        }
    &&& h.pos == point_at(r, h.dist as int)
    &&& h.norm == s.elements@[h.element_index as int].shape.norm_spec(h.pos, r.dir)
    &&& h.projection == s.elements@[h.element_index as int].shape.projection_spec(
        h.pos,
        h.norm,
    )
    &&& bounded(h.norm, SCALE as int)
    &&& norm_sq(h.norm) > 0
    &&& 0 <= h.projection.u < SCALE
    &&& 0 <= h.projection.v <= SCALE
}

/// Scans every element and keeps the closest valid hit.  The winner's
/// distance is no larger than any closed-form element's first root, and
/// ties go to the earliest element in the scene order.
pub fn get_closest_hit(scene: &Scene, r: &Ray) -> (res: Option<Hit>)
    requires
        r.valid(),
        scene.wf(),
    ensures
        match res {
            Some(h) => closest_hit_found(*scene, *r, h),
            None => scan_misses(*scene, *r),
        },
{
    let n = scene.elements.len();
    let mut best_idx: usize = 0;
    let mut best_dist: i64 = 0;
    let mut found: bool = false;
    let mut k: usize = 0;
    while k < n
        invariant
            k <= n,
            n == scene.elements@.len(),
            r.valid(),
            scene.wf(),
            found ==> {
                &&& best_idx < k
                &&& HIT_EPSILON < best_dist <= MAX_T
                &&& may_scan(*scene, best_idx as int, *r, best_dist as int)
            },
            found ==> forall|j: int|
                0 <= j < k ==> match #[trigger] scan_first(*scene, j, *r) {
                    Some(d) => best_dist <= d,
                    None => true,
                },
            found ==> forall|j: int|
                0 <= j < best_idx ==> match #[trigger] scan_first(*scene, j, *r) {
                    Some(d) => best_dist < d,
                    None => true,
                },
            !found ==> forall|j: int|
                0 <= j < k ==> #[trigger] scan_first(*scene, j, *r) is None,
        decreases n - k,
    {
        let element = &scene.elements[k];
        let shot: Option<Vec<i64>> = match element.material.displacement {
            Some(tid) => {
                if (tid as usize) < scene.textures.len() {
                    element.shape.intersect_displacement(r, &scene.textures[tid as usize])
                } else {
                    element.shape.intersect(r)
                }
            },
            None => element.shape.intersect(r),
        };
        match shot {
            Some(ts) => {
                let t0 = ts[0];
                if t0 <= MAX_T && (!found || t0 < best_dist) {
                    best_idx = k;
                    best_dist = t0;
                    found = true;
                }
            },
            None => {},
        }
        k = k + 1;
    }
    if !found {
        return None;
    }
    let element = &scene.elements[best_idx];
    let p = r.at(best_dist);
    let nrm = element.shape.norm(&p, r.get_dir());
    let proj = element.shape.projection(&p, &nrm);
    Some(
        Hit {
            element_id: element.id,
            element_index: best_idx,
            dist: best_dist,
            pos: p,
            norm: nrm,
            projection: proj,
        },
    )
}

/// One light's clamped contribution to a shaded colour.
pub open spec fn light_term(l: Light, mat: Material, pos: Vec3, nrm: Vec3) -> Color {
    if l.pos == pos {
        Color { r: 0, g: 0, b: 0 }
    } else {
        let d = l.diffuse_color_spec(pos, nrm);
        Color {
            r: fmul(d.r as int, mat.color.r as int) as i64,
            g: fmul(d.g as int, mat.color.g as int) as i64,
            b: fmul(d.b as int, mat.color.b as int) as i64,
        }
    }
}

/// Clamped accumulation of the first `k` lights onto `acc`.
pub open spec fn shade_fold(
    lights: Seq<Light>,
    k: int,
    mat: Material,
    pos: Vec3,
    nrm: Vec3,
    acc: Color,
) -> Color
    decreases k,
{
    if k <= 0 {
        acc
    } else {
        let prev = shade_fold(lights, k - 1, mat, pos, nrm, acc);
        let t = light_term(lights[k - 1], mat, pos, nrm);
        Color {
            r: (if prev.r + t.r > SCALE {
                SCALE as int
            } else {
                prev.r + t.r
            }) as i64,
            g: (if prev.g + t.g > SCALE {
                SCALE as int
            } else {
                prev.g + t.g
            }) as i64,
            b: (if prev.b + t.b > SCALE {
                SCALE as int
            } else {
                prev.b + t.b
            }) as i64,
        }
    }
}

/// The ambient base term: material colour filtered by the ambient
/// light's colour and intensity.
pub open spec fn ambient_term(mat: Material, s: Scene) -> Color {
    Color {
        r: fmul(fmul(mat.color.r as int, s.ambient.color.r as int), s.ambient.intensity as int)
            as i64,
        g: fmul(fmul(mat.color.g as int, s.ambient.color.g as int), s.ambient.intensity as int)
            as i64,
        b: fmul(fmul(mat.color.b as int, s.ambient.color.b as int), s.ambient.intensity as int)
            as i64,
    }
}

/// Shades a hit: the ambient base plus every light's diffuse
/// contribution, accumulated with saturation.
pub fn shade(scene: &Scene, mat: &Material, pos: &Vec3, nrm: &Vec3) -> (c: Color)
    requires
        scene.wf(),
        mat.wf(),
        bounded(*pos, crate::vec3::MAX_POS as int),
        bounded(*nrm, SCALE as int),
    ensures
        c == shade_fold(
            scene.lights@,
            scene.lights@.len() as int,
            *mat,
            *pos,
            *nrm,
            ambient_term(*mat, *scene),
        ),
        c.wf(),
{
    let mid = mat.color().times(scene.ambient().color());
    proof {
        crate::fixed::lemma_fmul_unit(mat.color.r as int, scene.ambient.color.r as int);
        crate::fixed::lemma_fmul_unit(mat.color.g as int, scene.ambient.color.g as int);
        crate::fixed::lemma_fmul_unit(mat.color.b as int, scene.ambient.color.b as int);
    }
    let base = mid.scaled(scene.ambient.intensity);
    proof {
        crate::fixed::lemma_fmul_unit(mid.r as int, scene.ambient.intensity as int);
        crate::fixed::lemma_fmul_unit(mid.g as int, scene.ambient.intensity as int);
        crate::fixed::lemma_fmul_unit(mid.b as int, scene.ambient.intensity as int);
        assert(base == ambient_term(*mat, *scene));
        assert(base.wf());
    }
    let mut acc = base;
    let n = scene.lights.len();
    let mut k: usize = 0;
    while k < n
        invariant
            k <= n,
            n == scene.lights@.len(),
            scene.wf(),
            mat.wf(),
            bounded(*pos, crate::vec3::MAX_POS as int),
            bounded(*nrm, SCALE as int),
            acc == shade_fold(
                scene.lights@,
                k as int,
                *mat,
                *pos,
                *nrm,
                ambient_term(*mat, *scene),
            ),
            acc.wf(),
        decreases n - k,
    {
        let light = &scene.lights[k];
        let same = light.pos.x == pos.x && light.pos.y == pos.y && light.pos.z == pos.z;
        let term: Color = if same {
            Color::new(0, 0, 0)
        } else {
            let d = light.get_diffuse(pos, nrm);
            d.times(mat.color())
        };
        proof {
            if !same {
                let dd = light.diffuse_color_spec(*pos, *nrm);
                crate::fixed::lemma_fmul_unit(dd.r as int, mat.color.r as int);
                crate::fixed::lemma_fmul_unit(dd.g as int, mat.color.g as int);
                crate::fixed::lemma_fmul_unit(dd.b as int, mat.color.b as int);
            }
            assert(term == light_term(scene.lights@[k as int], *mat, *pos, *nrm));
            assert(0 <= term.r <= SCALE && 0 <= term.g <= SCALE && 0 <= term.b <= SCALE);
        }
        let r2 = acc.r + term.r;
        let g2 = acc.g + term.g;
        let b2 = acc.b + term.b;
        acc = Color::new(
            if r2 > SCALE {
                SCALE
            } else {
                r2
            },
            if g2 > SCALE {
                SCALE
            } else {
                g2
            },
            if b2 > SCALE {
                SCALE
            } else {
                b2
            },
        );
        k = k + 1;
    }
    acc
}

/// A hit point within the world bounds, where shading is defined.
pub open spec fn within_world(p: Vec3) -> bool {
    bounded(p, crate::vec3::MAX_POS as int)
}

/// The colour a certified hit shades to: the saturating fold of the
/// scene's lights over the winning element's material.
pub open spec fn shaded_at(s: Scene, h: Hit) -> Color {
    let mat = s.elements@[h.element_index as int].material;
    shade_fold(s.lights@, s.lights@.len() as int, mat, h.pos, h.norm, ambient_term(mat, s))
}

/// What `cast_ray` certifies of its colour: either some certified
/// closest hit exists whose shade (or, outside the world bounds, black)
/// the colour is, or every closed-form element misses and the colour is
/// the black background.
pub open spec fn cast_ray_post(s: Scene, r: Ray, c: Color) -> bool {
    ||| exists|h: Hit|
        #[trigger] closest_hit_found(s, r, h) && c == (if within_world(h.pos) {
            shaded_at(s, h)
        } else {
            Color { r: 0, g: 0, b: 0 }
        })
    ||| (scan_misses(s, r) && c == (Color { r: 0, g: 0, b: 0 }))
}

/// Casts one ray into the scene: the shaded colour of the closest hit,
/// or black where nothing (or nothing certifiable) is struck.
pub fn cast_ray(scene: &Scene, r: &Ray) -> (c: Color)
    requires
        r.valid(),
        scene.wf(),
    ensures
        c.wf(),
        cast_ray_post(*scene, *r, c),
        scene.elements@.len() == 0 ==> c == (Color { r: 0, g: 0, b: 0 }),
{
    match get_closest_hit(scene, r) {
        Some(hit) => {
            let idx = hit.element_index;
            let element = &scene.elements[idx];
            let in_world = hit.pos.x <= crate::vec3::MAX_POS && hit.pos.x
                >= -crate::vec3::MAX_POS && hit.pos.y <= crate::vec3::MAX_POS && hit.pos.y
                >= -crate::vec3::MAX_POS && hit.pos.z <= crate::vec3::MAX_POS && hit.pos.z
                >= -crate::vec3::MAX_POS;
            let c = if in_world {
                shade(scene, &element.material, &hit.pos, &hit.norm)
            } else {
                Color::new(0, 0, 0)
            };
            proof {
                assert(closest_hit_found(*scene, *r, hit) && c == (if within_world(hit.pos) {
                    shaded_at(*scene, hit)
                } else {
                    Color { r: 0, g: 0, b: 0 }
                }));
            }
            c
        },
        None => Color::new(0, 0, 0),
    }
}

/// One RGBA channel of a packed colour: 255 steps per unit channel.
pub open spec fn byte_of(v: int) -> int {
    crate::fixed::div_trunc(v * 255, SCALE as int)
}

/// The four bytes of pixel `(x, y)` in a row-major frame are the packed
/// form of a colour that `cast_ray` certifies for the pixel's ray.
pub open spec fn pixel_ok(s: Scene, ray: Ray, data: Seq<u8>, width: int, x: int, y: int) -> bool {
    let base = 4 * (y * width + x);
    exists|c: Color|
        {
            &&& #[trigger] cast_ray_post(s, ray, c)
            &&& c.wf()
            &&& data[base] == byte_of(c.r as int)
            &&& data[base + 1] == byte_of(c.g as int)
            &&& data[base + 2] == byte_of(c.b as int)
            &&& data[base + 3] == 255
        }
}

/// Fills one frame: one ray per pixel from the precomputed table, cast
/// and packed as RGBA bytes in row-major order.
pub fn render_frame(
    scene: &Scene,
    rays: &Vec<Vec<Ray>>,
    width: usize,
    height: usize,
    generation: u64,
) -> (f: Frame)
    requires
        scene.wf(),
        0 < width <= 4096,
        0 < height <= 4096,
        rays@.len() == width,
        forall|x: int| 0 <= x < width ==> (#[trigger] rays@[x])@.len() == height,
        forall|x: int, y: int|
            0 <= x < width && 0 <= y < height ==> (#[trigger] rays@[x]@[y]).valid(),
    ensures
        f.wf(),
        f.width == width,
        f.height == height,
        f.generation == generation,
        forall|x: int, y: int|
            0 <= x < width && 0 <= y < height ==> #[trigger] pixel_ok(
                *scene,
                rays@[x]@[y],
                f.data@,
                width as int,
                x,
                y,
            ),
{
    let mut data: Vec<u8> = Vec::new();
    let mut y: usize = 0;
    while y < height
        invariant
            y <= height,
            0 < width <= 4096,
            0 < height <= 4096,
            scene.wf(),
            rays@.len() == width,
            forall|x: int| 0 <= x < width ==> (#[trigger] rays@[x])@.len() == height,
            forall|x: int, yy: int|
                0 <= x < width && 0 <= yy < height ==> (#[trigger] rays@[x]@[yy]).valid(),
            data@.len() == y * width * 4,
            forall|xx: int, yy: int|
                0 <= xx < width && 0 <= yy < y ==> #[trigger] pixel_ok(
                    *scene,
                    rays@[xx]@[yy],
                    data@,
                    width as int,
                    xx,
                    yy,
                ),
        decreases height - y,
    {
        let mut x: usize = 0;
        while x < width
            invariant
                x <= width,
                y < height,
                0 < width <= 4096,
                0 < height <= 4096,
                scene.wf(),
                rays@.len() == width,
                forall|xx: int| 0 <= xx < width ==> (#[trigger] rays@[xx])@.len() == height,
                forall|xx: int, yy: int|
                    0 <= xx < width && 0 <= yy < height ==> (#[trigger] rays@[xx]@[yy]).valid(),
                data@.len() == y * width * 4 + x * 4,
                forall|xx: int, yy: int|
                    0 <= xx < width && 0 <= yy < y ==> #[trigger] pixel_ok(
                        *scene,
                        rays@[xx]@[yy],
                        data@,
                        width as int,
                        xx,
                        yy,
                    ),
                forall|xx: int|
                    0 <= xx < x ==> #[trigger] pixel_ok(
                        *scene,
                        rays@[xx]@[y as int],
                        data@,
                        width as int,
                        xx,
                        y as int,
                    ),
            decreases width - x,
        {
            proof {
                assert(y * width * 4 + x * 4 + 4 <= height * width * 4) by (nonlinear_arith)
                    requires
                        0 <= y < height,
                        0 <= x < width,
                        0 < width <= 4096,
                        0 < height <= 4096,
                ;
            }
            let ray = &rays[x][y];
            let color = cast_ray(scene, ray);
            let px = color.to_rgba();
            let ghost d0 = data@;
            data.push(px[0]);
            data.push(px[1]);
            data.push(px[2]);
            data.push(px[3]);
            proof {
                assert(data@.len() == d0.len() + 4);
                assert forall|i: int| 0 <= i < d0.len() implies data@[i] == d0[i] by {}
                assert(data@[d0.len() as int] == px[0] && data@[d0.len() as int + 1] == px[1]
                    && data@[d0.len() as int + 2] == px[2] && data@[d0.len() as int + 3]
                    == px[3]);
                // earlier pixels keep their bytes, so their certificates carry over
                assert forall|xx: int, yy: int|
                    (0 <= xx < width && 0 <= yy < y) || (0 <= xx < x && yy == y) implies pixel_ok(
                    *scene,
                    rays@[xx]@[yy],
                    data@,
                    width as int,
                    xx,
                    yy,
                ) by {
                    let base = 4 * (yy * (width as int) + xx);
                    assert(pixel_ok(*scene, rays@[xx]@[yy], d0, width as int, xx, yy));
                    assert(0 <= base && base + 4 <= d0.len()) by (nonlinear_arith)
                        requires
                            base == 4 * (yy * (width as int) + xx),
                            d0.len() == y * width * 4 + x * 4,
                            ((0 <= xx < width && 0 <= yy < y) || (0 <= xx < x && yy == y)),
                            0 <= x <= width,
                            0 <= y,
                            0 < width <= 4096,
                    ;
                    let c = choose|c: Color|
                        {
                            &&& #[trigger] cast_ray_post(*scene, rays@[xx]@[yy], c)
                            &&& c.wf()
                            &&& d0[base] == byte_of(c.r as int)
                            &&& d0[base + 1] == byte_of(c.g as int)
                            &&& d0[base + 2] == byte_of(c.b as int)
                            &&& d0[base + 3] == 255
                        };
                    assert(cast_ray_post(*scene, rays@[xx]@[yy], c) && c.wf() && data@[base]
                        == byte_of(c.r as int) && data@[base + 1] == byte_of(c.g as int)
                        && data@[base + 2] == byte_of(c.b as int) && data@[base + 3] == 255);
                }
                // and the freshly written pixel gets its certificate
                assert(d0.len() == 4 * ((y as int) * (width as int) + (x as int)))
                    by (nonlinear_arith)
                    requires
                        d0.len() == y * width * 4 + x * 4,
                ;
                assert(cast_ray_post(*scene, rays@[x as int]@[y as int], color) && color.wf()
                    && data@[d0.len() as int] == byte_of(color.r as int) && data@[d0.len() as int
                    + 1] == byte_of(color.g as int) && data@[d0.len() as int + 2] == byte_of(
                    color.b as int,
                ) && data@[d0.len() as int + 3] == 255);
                assert(pixel_ok(
                    *scene,
                    rays@[x as int]@[y as int],
                    data@,
                    width as int,
                    x as int,
                    y as int,
                ));
            }
            x = x + 1;
        }
        proof {
            assert((y + 1) * width * 4 == y * width * 4 + width * 4) by (nonlinear_arith);
        }
        y = y + 1;
    }
    proof {
        assert(height * width * 4 == width * height * 4) by (nonlinear_arith);
    }
    Frame { width, height, data, generation }
}

} // verus!

use solar_render::fixed::FX_ONE;
use solar_render::geometry::{Color, Vec2, Vec3, Vertex};
use solar_render::raster::SUBPIXEL;
use solar_render::transform::{
    isqrt, multiply_matrix_vector4, normalize3, transform_normal, vertex_shader, Mat4, Uniforms,
    Vec4,
};

fn identity() -> Mat4 {
    let o = FX_ONE;
    Mat4 { rows: [[o, 0, 0, 0], [0, o, 0, 0], [0, 0, o, 0], [0, 0, 0, o]] }
}

fn scaled(k: i64) -> Mat4 {
    let o = FX_ONE;
    Mat4 { rows: [[k, 0, 0, 0], [0, k, 0, 0], [0, 0, k, 0], [0, 0, 0, o]] }
}

#[test]
fn integer_square_root() {
    assert_eq!(isqrt(0), 0);
    assert_eq!(isqrt(15), 3);
    assert_eq!(isqrt(16), 4);
    assert_eq!(isqrt(1 << 64), 1 << 32);
}

#[test]
fn matrix_times_vector() {
    let m = Mat4 {
        rows: [[2 * FX_ONE, 0, 0, FX_ONE], [0, FX_ONE, 0, 0], [0, 0, FX_ONE, 0], [0, 0, 0, FX_ONE]],
    };
    let v = Vec4 { x: 3 * FX_ONE, y: 4 * FX_ONE, z: 5, w: FX_ONE };
    let r = multiply_matrix_vector4(&m, &v);
    assert_eq!(r, Vec4 { x: 7 * FX_ONE, y: 4 * FX_ONE, z: 5, w: FX_ONE });
}

#[test]
fn normalize_scales_to_unit_length() {
    let (n, len) = normalize3(Vec3::new(3 * FX_ONE, 0, 4 * FX_ONE));
    assert_eq!(len, 5 * FX_ONE);
    assert_eq!(n, Vec3::new(3 * FX_ONE / 5, 0, 4 * FX_ONE / 5));
    let (z, zl) = normalize3(Vec3::new(0, 0, 0));
    assert_eq!((z, zl), (Vec3::new(0, 0, 0), 0));
}

#[test]
fn normals_ignore_translation() {
    let mut m = scaled(2 * FX_ONE);
    m.rows[0][3] = 50 * FX_ONE;
    let n = transform_normal(&Vec3::new(0, FX_ONE, 0), &m);
    assert_eq!(n, Vec3::new(0, FX_ONE, 0));
}

#[test]
fn identity_pipeline_maps_to_subpixels() {
    let u = Uniforms {
        model_matrix: identity(),
        view_matrix: identity(),
        projection_matrix: identity(),
        viewport_matrix: identity(),
    };
    let v = Vertex::new(
        Vec3::new(10 * FX_ONE, 20 * FX_ONE, FX_ONE / 2),
        Vec3::new(0, 0, 3 * FX_ONE),
        Vec2 { x: 0, y: 0 },
        Color::new(1, 2, 3),
    );
    let r = vertex_shader(&v, &u);
    assert_eq!(r.transformed_position, Vec3::new(10 * SUBPIXEL, 20 * SUBPIXEL, FX_ONE / 2));
    assert_eq!(r.transformed_normal, Vec3::new(0, 0, FX_ONE));
    assert_eq!(r.color, Color::new(1, 2, 3));
    assert_eq!(r.position, v.position);
}

#[test]
fn perspective_division_by_w() {
    let mut proj = identity();
    proj.rows[3] = [0, 0, 2 * FX_ONE, 0];
    let u = Uniforms {
        model_matrix: identity(),
        view_matrix: identity(),
        projection_matrix: proj,
        viewport_matrix: identity(),
    };
    let v = Vertex::new(
        Vec3::new(8 * FX_ONE, 4 * FX_ONE, FX_ONE),
        Vec3::new(0, 0, 0),
        Vec2 { x: 0, y: 0 },
        Color::new(0, 0, 0),
    );
    let r = vertex_shader(&v, &u);
    // w = 2z = 2, so x, y and z are halved.
    assert_eq!(r.transformed_position, Vec3::new(4 * SUBPIXEL, 2 * SUBPIXEL, FX_ONE / 2));
}

#[test]
fn zero_w_skips_the_division() {
    let mut proj = identity();
    proj.rows[3] = [0, 0, 0, 0];
    let u = Uniforms {
        model_matrix: identity(),
        view_matrix: identity(),
        projection_matrix: proj,
        viewport_matrix: identity(),
    };
    let v = Vertex::new(
        Vec3::new(3 * FX_ONE, 1 * FX_ONE, FX_ONE),
        Vec3::new(0, 0, 0),
        Vec2 { x: 0, y: 0 },
        Color::new(0, 0, 0),
    );
    let r = vertex_shader(&v, &u);
    assert_eq!(r.transformed_position, Vec3::new(3 * SUBPIXEL, SUBPIXEL, FX_ONE));
}

#[test]
fn small_vectors_normalize_to_unit_length() {
    let (n, len) = normalize3(Vec3::new(1, 1, 0));
    assert_eq!(len, 1);
    assert_eq!(n, Vec3::new(46341, 46341, 0));
    let (m, _) = normalize3(Vec3::new(1, 2, 2));
    assert_eq!(m, Vec3::new(21845, 43690, 43690));
    let (k, _) = normalize3(Vec3::new(-7, 0, 0));
    assert_eq!(k, Vec3::new(-FX_ONE, 0, 0));
}

#[test]
fn normalized_lengths_stay_near_one() {
    let one = FX_ONE as i128;
    for &(x, y, z) in &[(1i64, 0i64, 0i64), (3, -5, 7), (FX_ONE, FX_ONE, FX_ONE), (1 << 40, -(1 << 39), 12345), (-2, 1, -1)] {
        let (n, _) = normalize3(Vec3::new(x, y, z));
        let sq = (n.x as i128).pow(2) + (n.y as i128).pow(2) + (n.z as i128).pow(2);
        assert!(sq >= (one - 2) * (one - 2) && sq <= (one + 1) * (one + 1));
    }
}

use maze_runner::texture::{
    fallback_color, metal_tints, noise_level, stone_tints, vine_tints, Texture, TextureSet, Tint,
    SIZE,
};

fn tex(w: usize, h: usize, pixels: Vec<u32>) -> Texture {
    Texture { width: w, height: h, pixels }
}

#[test]
fn noise_levels() {
    assert_eq!(noise_level(0, 0, 1), 10);
    assert_eq!(noise_level(5, 7, 2), 818);
    assert_eq!(noise_level(63, 63, 13), 764);
    assert_eq!(noise_level(1, 1, 5), 539);
    assert_eq!(noise_level(0, 0, 0), 0);
    assert_eq!(noise_level(10, 20, 6), 452);
    for x in 0..40 {
        for y in 0..40 {
            assert!(noise_level(x, y, 3) < 1000);
        }
    }
}

#[test]
fn stone_layout() {
    let t = stone_tints();
    assert_eq!(t.len(), SIZE * SIZE);
    assert_eq!(t[0], Tint { base: 0x5B5B55, offset: 700, noise: 10, scale: 200 });
    assert_eq!(t[5 * 64 + 5], Tint { base: 0x8A8A80, offset: 800, noise: 440, scale: 350 });
    assert_eq!(t[20 * 64 + 17], Tint { base: 0x5B5B55, offset: 700, noise: 994, scale: 200 });
    assert_eq!(t[20 * 64 + 3], Tint { base: 0x8A8A80, offset: 800, noise: 172, scale: 350 });
}

#[test]
fn metal_layout() {
    let t = metal_tints();
    assert_eq!(t.len(), SIZE * SIZE);
    assert_eq!(t[5 * 64 + 5], Tint { base: 0xC9B79A, offset: 1000, noise: 0, scale: 0 });
    assert_eq!(t[10 * 64], Tint { base: 0x4A2B18, offset: 900, noise: 0, scale: 0 });
    assert_eq!(t[10 * 64 + 10], Tint { base: 0x8A5A34, offset: 700, noise: 471, scale: 450 });
    assert_eq!(t[2 * 64 + 3], Tint { base: 0xB5561F, offset: 750, noise: 831, scale: 400 });
}

#[test]
fn vine_layout() {
    let waves = vec![0i32; SIZE];
    let t = vine_tints(&waves);
    assert_eq!(t.len(), SIZE * SIZE);
    assert_eq!(t[14].base, 0x2F5A22);
    assert_eq!(t[13].base, 0x2F5A22);
    assert_eq!(t[15].base, 0x2F5A22);
    assert_eq!(t[42].base, 0x2F5A22);
    assert_eq!(t[30], Tint { base: 0x6E7062, offset: 750, noise: noise_level(15, 0, 9), scale: 350 });
    let shifted = vine_tints(&vec![3i32; SIZE]);
    assert_eq!(shifted[17].base, 0x2F5A22);
    assert_eq!(shifted[39].base, 0x2F5A22);
}

#[test]
fn get_pixel_clamps() {
    let t = tex(2, 2, vec![1, 2, 3, 4]);
    assert_eq!(t.get_pixel(0, 0), 1);
    assert_eq!(t.get_pixel(1, 0), 2);
    assert_eq!(t.get_pixel(0, 1), 3);
    assert_eq!(t.get_pixel(5, 9), 4);
}

#[test]
fn get_pixel_of_empty_texture_is_gray() {
    let t = tex(0, 4, vec![]);
    assert_eq!(t.get_pixel(0, 0), 0x808080);
}

#[test]
fn textures_by_wall_kind() {
    let set = TextureSet {
        stone: tex(1, 1, vec![1]),
        metal: tex(1, 1, vec![2]),
        vine: tex(1, 1, vec![3]),
    };
    assert_eq!(set.for_cell('#').pixels, vec![2]);
    assert_eq!(set.for_cell('%').pixels, vec![3]);
    assert_eq!(set.for_cell('+').pixels, vec![1]);
    assert_eq!(set.for_cell('x').pixels, vec![1]);
}

#[test]
fn fallback_colors() {
    assert_eq!(fallback_color('#'), 0x8A5A34);
    assert_eq!(fallback_color('%'), 0x4E8A34);
    assert_eq!(fallback_color('+'), 0x8A8A80);
    assert_eq!(fallback_color('?'), 0x8A8A80);
}

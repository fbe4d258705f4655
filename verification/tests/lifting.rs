use simd_intrinsics::lift::{
    fold_tree, lift16_s_v, lift16_v_s, lift16_vs_v, lift16_vv_v, lift2_v_s, lift2_vs_v,
    lift2_vv_v, lift32_s_v, lift32_v_s, lift32_vs_v, lift32_vv_v, lift4_v_s, lift4_vs_v,
    lift4_vv_v, lift8_v_s, lift8_vs_v, lift8_vv_v, lift_s_v, lift_v_s, lift_vs_v, lift_vv_v,
};
use simd_intrinsics::vector::{u16x8, u32x4, u64x2, u64x4, u8x16, u8x32};

fn sub_u64(x: u64, y: u64) -> u64 {
    x.wrapping_sub(y)
}

fn widen(x: u8, y: u8) -> u16 {
    (x as u16) * 256 + (y as u16)
}

#[test]
fn binary_lift_works_lane_by_lane() {
    let r = lift2_vv_v::<_, u64, u64, u64>(sub_u64, u64x2([10, 3]), u64x2([4, 5]));
    assert_eq!(r.0, [6, 3u64.wrapping_sub(5)]);
    let r = lift4_vv_v::<_, u64, u64, u64>(sub_u64, u64x4([10, 20, 30, 40]), u64x4([1, 2, 3, 4]));
    assert_eq!(r.0, [9, 18, 27, 36]);
    let r = lift8_vv_v::<_, u16, u16, u16>(
        |x: u16, y: u16| x ^ y,
        u16x8([1, 2, 3, 4, 5, 6, 7, 8]),
        u16x8([8, 7, 6, 5, 4, 3, 2, 1]),
    );
    assert_eq!(r.0, [9, 5, 5, 1, 1, 5, 5, 9]);
    let mut a = [0u8; 16];
    let mut b = [0u8; 16];
    for i in 0..16 {
        a[i] = i as u8;
        b[i] = (3 * i) as u8;
    }
    let r = lift16_vv_v::<_, u8, u8, u16>(widen, u8x16(a), u8x16(b));
    for i in 0..16 {
        assert_eq!(r.0[i], widen(a[i], b[i]));
    }
    let mut c = [0u8; 32];
    let mut d = [0u8; 32];
    for i in 0..32 {
        c[i] = (5 * i) as u8;
        d[i] = (200 - i) as u8;
    }
    let r = lift32_vv_v::<_, u8, u8, u8>(|x: u8, y: u8| x.wrapping_add(y), u8x32(c), u8x32(d));
    for i in 0..32 {
        assert_eq!(r.0[i], c[i].wrapping_add(d[i]));
    }
    let r = lift_vv_v::<4, _, u32, u32, u32>(
        |x: u32, y: u32| x & y,
        u32x4([3, 5, 6, 7]),
        u32x4([1; 4]),
    );
    assert_eq!(r.0, [1, 1, 0, 1]);
}

#[test]
fn scalar_lift_hands_the_scalar_to_every_lane() {
    let r = lift2_vs_v::<_, u64, u64, u64>(sub_u64, u64x2([10, 30]), 7);
    assert_eq!(r.0, [3, 23]);
    let r = lift4_vs_v::<_, u32, u8, u32>(|x: u32, s: u8| x + s as u32, u32x4([1, 2, 3, 4]), 9);
    assert_eq!(r.0, [10, 11, 12, 13]);
    let r = lift8_vs_v::<_, u16, bool, u16>(
        |x: u16, keep: bool| if keep { x } else { 0 },
        u16x8([1, 2, 3, 4, 5, 6, 7, 8]),
        true,
    );
    assert_eq!(r.0, [1, 2, 3, 4, 5, 6, 7, 8]);
    let r = lift16_vs_v::<_, u8, u8, u8>(|x: u8, s: u8| x | s, u8x16([1; 16]), 0x80);
    assert_eq!(r.0, [0x81; 16]);
    let mut c = [0u8; 32];
    for i in 0..32 {
        c[i] = i as u8;
    }
    let r = lift32_vs_v::<_, u8, u8, u8>(|x: u8, s: u8| x * s, u8x32(c), 2);
    for i in 0..32 {
        assert_eq!(r.0[i], 2 * c[i]);
    }
    let r = lift_vs_v::<2, _, u64, u64, u64>(sub_u64, u64x2([1, 2]), 1);
    assert_eq!(r.0, [0, 1]);
}

#[test]
fn broadcast_fills_every_lane() {
    for k in [0u8, 1, 0x7f, 0x80, 0xff] {
        assert_eq!(lift16_s_v::<u8>(k).0, [k; 16]);
        assert_eq!(lift32_s_v::<u8>(k).0, [k; 32]);
    }
    assert_eq!(lift16_s_v::<u16>(0xbeef).0, [0xbeef; 16]);
    assert_eq!(lift_s_v::<8, u16>(0x1234).0, [0x1234; 8]);
    assert_eq!(lift_s_v::<8, u32>(0xdead_beef).0, [0xdead_beef; 8]);
    assert_eq!(lift_s_v::<4, u32>(7).0, [7; 4]);
    assert_eq!(lift_s_v::<4, u64>(u64::MAX).0, [u64::MAX; 4]);
    assert_eq!(lift_s_v::<2, u64>(5).0, [5; 2]);
    assert_eq!(lift_s_v::<2, u128>(u128::MAX).0, [u128::MAX; 2]);
}

fn bracket(_h: usize, x: u16, y: u16) -> u16 {
    // Not associative, so another order of combination gives another
    // number.
    (x * 7 + y * 3 + 1) % 10007
}

#[test]
fn fold_is_a_balanced_tree() {
    let g = bracket;
    let m = [1u16, 2, 3, 4];
    let expect = g(2, g(1, 1, 2), g(1, 3, 4));
    assert_eq!(fold_tree(&g, &m, 0, 4), expect);
    let sequential = g(3, g(2, g(1, 1, 2), 3), 4);
    assert_ne!(expect, sequential);
    let m8 = [1u16, 2, 3, 4, 5, 6, 7, 8];
    let left = g(2, g(1, 1, 2), g(1, 3, 4));
    let right = g(2, g(1, 5, 6), g(1, 7, 8));
    assert_eq!(fold_tree(&g, &m8, 0, 8), g(4, left, right));
    assert_eq!(fold_tree(&g, &m8, 4, 4), right);
    assert_eq!(fold_tree(&g, &m8, 3, 1), 4);
}

#[test]
fn fold_tells_the_reducer_the_width_of_the_lower_half() {
    let place = |h: usize, x: u64, y: u64| x | (y << (4 * h));
    let r = lift4_v_s::<_, _, u32, u64>(|x: u32| (x & 0xf) as u64, place, u32x4([1, 2, 3, 4]));
    assert_eq!(r, 0x4321);
    let r = lift2_v_s::<_, _, u64, u64>(|x: u64| x & 0xf, place, u64x2([0xa, 0xb]));
    assert_eq!(r, 0xba);
    let r = lift8_v_s::<_, _, u16, u64>(
        |x: u16| (x & 0xf) as u64,
        place,
        u16x8([1, 2, 3, 4, 5, 6, 7, 8]),
    );
    assert_eq!(r, 0x8765_4321);
    let mut a = [0u8; 16];
    for i in 0..16 {
        a[i] = i as u8;
    }
    let r = lift16_v_s::<_, _, u8, u64>(|x: u8| x as u64, place, u8x16(a));
    assert_eq!(r, 0xfedc_ba98_7654_3210);
    let r = lift_v_s::<16, _, _, u8, u64>(|x: u8| x as u64, place, u8x16(a));
    assert_eq!(r, 0xfedc_ba98_7654_3210);
}

#[test]
fn fold_over_thirty_two_lanes() {
    let mut a = [0u8; 32];
    for i in 0..32 {
        a[i] = if i % 3 == 0 { 1 } else { 0 };
    }
    let r = lift32_v_s::<_, _, u8, u64>(
        |x: u8| x as u64,
        |h: usize, x: u64, y: u64| x | (y << h),
        u8x32(a),
    );
    let mut expect: u64 = 0;
    for i in 0..32 {
        expect |= (a[i] as u64) << i;
    }
    assert_eq!(r, expect);
    let count = lift32_v_s::<_, _, u8, u32>(
        |x: u8| x as u32,
        |_h: usize, x: u32, y: u32| x + y,
        u8x32(a),
    );
    assert_eq!(count, 11);
}

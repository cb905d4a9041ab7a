use hl_spray_size_calculator::{
    gcd, GameData, SetDifference, SymmetricDifference, Vector2, GOLDSRC_MULTIPLE,
    HALF_LIFE_RELATIVE_SIZE, SVEN_COOP_RELATIVE_SIZE,
};

#[test]
fn gcd_test() {
    assert_eq!(gcd(12, 8), 4);
    assert_eq!(gcd(3, 0), 3);
    assert_eq!(gcd(0, 4), 4);
    assert_eq!(gcd(13, 7), 1);
}

#[test]
fn ratio_creation_test() {
    let half_life = GameData::new(GOLDSRC_MULTIPLE, HALF_LIFE_RELATIVE_SIZE);
    println!("{:?}", half_life);
    let sven_coop = GameData::new(GOLDSRC_MULTIPLE, SVEN_COOP_RELATIVE_SIZE);
    println!("{:?}", sven_coop);
    let half_life_biggest = GameData::new(GOLDSRC_MULTIPLE, HALF_LIFE_RELATIVE_SIZE).biggest_ratios();
    println!("{:?}", half_life_biggest);
    let sven_coop_biggest = GameData::new(GOLDSRC_MULTIPLE, SVEN_COOP_RELATIVE_SIZE).biggest_ratios();
    println!("{:?}", sven_coop_biggest);
}

#[test]
fn symmetric_difference_test() {
    let one = Vector2 { x: 4, y: 3 };
    let two = Vector2 { x: 5, y: 5 };
    assert_eq!(one.symmetric_difference(two), 13);

    let one = Vector2 { x: 4, y: 3 };
    let two = Vector2 { x: 2, y: 2 };
    assert_eq!(one.symmetric_difference(two), 8);

    let one = Vector2 { x: 16, y: 10 };
    let two = Vector2 { x: 12, y: 18 };
    assert_eq!(one.symmetric_difference(two), (16 - 12) * 10 + (18 - 10) * 12);
}

#[test]
fn fitting_test() {
    let size = Vector2::new(1128, 1840);
    let mut game_state = GameData::new(GOLDSRC_MULTIPLE, HALF_LIFE_RELATIVE_SIZE);
    let fit = game_state.fit_size(size);
    println!("{:?}", fit);
    assert_eq!(fit.ratio(), Vector2 { x: 3, y: 5 });
    assert_eq!(fit.as_is(), Vector2 { x: 1104, y: 1840 });
    assert_eq!(fit.resized(), &[Vector2 { x: 48, y: 80 }]);
    game_state = game_state.biggest_ratios();
    let fit = game_state.fit_size(size);
    println!("{:?}", fit);
    assert_eq!(fit.ratio(), Vector2 { x: 6, y: 7 });
    assert_eq!(fit.as_is(), Vector2 { x: 1152, y: 1344 });
    assert_eq!(fit.resized(), &[Vector2 { x: 96, y: 112 }]);

    game_state = game_state.max_relative_size(SVEN_COOP_RELATIVE_SIZE);
    let fit = game_state.fit_size(size);
    println!("{:?}", fit);
    assert_eq!(fit.ratio(), Vector2 { x: 3, y: 5 });
    assert_eq!(fit.as_is(), Vector2 { x: 1104, y: 1840 });
    game_state = game_state.biggest_ratios();
    let fit = game_state.fit_size(size);
    println!("{:?}", fit);
    assert_eq!(fit.ratio(), Vector2 { x: 7, y: 8 });
    assert_eq!(fit.as_is(), Vector2 { x: 1232, y: 1408 });
    assert_eq!(fit.resized(), &[Vector2 { x: 112, y: 128 }]);
}

#[test]
fn gcd_divides_and_commutes() {
    for (a, b) in [(0u32, 0u32), (1, 0), (48, 180), (180, 48), (17, 51), (4294967295, 65535), (1 << 31, 1 << 20), (96, 64)] {
        let g = gcd(a, b);
        assert_eq!(g, gcd(b, a));
        if g > 0 {
            assert_eq!(a % g, 0);
            assert_eq!(b % g, 0);
        }
    }
    assert_eq!(gcd(48, 180), 12);
    assert_eq!(gcd(1 << 31, 1 << 20), 1 << 20);
    assert_eq!(gcd(4294967295, 65535), 65535);
    assert_eq!(gcd(0, 0), 0);
    assert_eq!(gcd(96, 64), 32);
}

#[test]
fn set_difference_parts_trade_places() {
    let a = Vector2::new(16u32, 10u32);
    let b = Vector2::new(12u32, 18u32);
    assert_eq!(a.set_difference(b), (160 - 120, 216 - 120));
    let (x, y) = a.set_difference(b);
    assert_eq!(b.set_difference(a), (y, x));
    assert_eq!(a.symmetric_difference(b), b.symmetric_difference(a));
    assert_eq!(a.symmetric_difference(a), 0);
}

#[test]
fn ratios_are_distinct_lowest_terms_and_come_in_pairs() {
    for data in [
        GameData::new(GOLDSRC_MULTIPLE, HALF_LIFE_RELATIVE_SIZE),
        GameData::new(GOLDSRC_MULTIPLE, SVEN_COOP_RELATIVE_SIZE),
        GameData::new(GOLDSRC_MULTIPLE, SVEN_COOP_RELATIVE_SIZE).biggest_ratios(),
        GameData::new(3, 5),
    ] {
        let ratios = data.ratios();
        for (i, r) in ratios.iter().enumerate() {
            assert_eq!(gcd(r.x, r.y), 1);
            assert!(ratios.contains(&Vector2::new(r.y, r.x)));
            assert!(!ratios[i + 1..].contains(r));
        }
    }
    let half_life = GameData::new(GOLDSRC_MULTIPLE, HALF_LIFE_RELATIVE_SIZE);
    assert_eq!(half_life.ratios().len(), 35);
    assert!(half_life.ratios().contains(&Vector2::new(1, 1)));
    assert!(half_life.ratios().contains(&Vector2::new(7, 6)));
    assert!(!half_life.ratios().contains(&Vector2::new(8, 1)));
    assert_eq!(GameData::new(GOLDSRC_MULTIPLE, SVEN_COOP_RELATIVE_SIZE).ratios().len(), 43);
    let biggest = half_life.biggest_ratios();
    assert_eq!(biggest.ratios().len(), 2);
    assert!(biggest.ratios().contains(&Vector2::new(6, 7)));
    assert!(biggest.ratios().contains(&Vector2::new(7, 6)));
    // An area of five allows sides up to three.
    assert_eq!(GameData::new(1, 5).ratios().len(), 7);
    // An area of three has no ratio of exactly that area within its square root.
    assert!(GameData::new(1, 3).biggest_ratios().ratios().is_empty());
}

#[test]
fn builders_keep_or_recompute_ratios() {
    let data = GameData::new(GOLDSRC_MULTIPLE, HALF_LIFE_RELATIVE_SIZE).biggest_ratios();
    let kept = data.clone().multiple(8);
    assert_eq!(kept.ratios(), data.ratios());
    let resized = data.max_relative_size(SVEN_COOP_RELATIVE_SIZE);
    assert_eq!(resized.ratios(), GameData::new(GOLDSRC_MULTIPLE, SVEN_COOP_RELATIVE_SIZE).ratios());
    let all_again = GameData::new(8, 4).biggest_ratios().all_ratios();
    assert_eq!(all_again.ratios(), GameData::new(8, 4).ratios());
}

fn mismatch(o: Vector2<u32>, bx: u64, by: u64) -> u64 {
    let (ox, oy) = (o.x as u64, o.y as u64);
    ox * oy + bx * by - 2 * ox.min(bx) * oy.min(by)
}

#[test]
fn fit_sizes_stay_within_the_area_limit() {
    let data = GameData::new(GOLDSRC_MULTIPLE, HALF_LIFE_RELATIVE_SIZE);
    for size in [Vector2::new(1u32, 1u32), Vector2::new(16, 16), Vector2::new(640, 480), Vector2::new(100, 3000)] {
        assert!(data.can_fit(size));
        let fit = data.fit_size(size);
        let r = fit.ratio();
        let a = fit.as_is();
        assert_eq!(a.x * r.y, a.y * r.x);
        assert_eq!(a.x % GOLDSRC_MULTIPLE, 0);
        assert_eq!(a.y % GOLDSRC_MULTIPLE, 0);
        for (n, s) in fit.resized().iter().enumerate() {
            let n = n as u32 + 1;
            assert_eq!(*s, Vector2::new(n * r.x * 16, n * r.y * 16));
            assert!(s.x * s.y <= 16 * 16 * HALF_LIFE_RELATIVE_SIZE);
        }
        let next = fit.resized().len() as u32 + 1;
        assert!(next * r.x * 16 * next * r.y * 16 > 16 * 16 * HALF_LIFE_RELATIVE_SIZE);
        // No ratio's best multiple comes closer to the image.
        let best = mismatch(size, a.x as u64, a.y as u64);
        for q in data.ratios() {
            let (sx, sy) = (q.x as u64 * 16, q.y as u64 * 16);
            let mut k = 1u64;
            while mismatch(size, (k + 1) * sx, (k + 1) * sy) <= mismatch(size, k * sx, k * sy) {
                k += 1;
            }
            assert!(mismatch(size, k * sx, k * sy) >= best);
        }
    }
    assert!(!data.can_fit(Vector2::new(0, 5)));
    assert!(!data.can_fit(Vector2::new(70000, 70000)));
    assert!(!GameData::new(1, 3).biggest_ratios().can_fit(Vector2::new(5, 5)));
    assert!(!GameData::new(65535, 2).can_fit(Vector2::new(5, 5)));
}

#[test]
fn square_images_fit_the_square_ratio() {
    let data = GameData::new(GOLDSRC_MULTIPLE, HALF_LIFE_RELATIVE_SIZE);
    let fit = data.fit_size(Vector2::new(64, 64));
    assert_eq!(fit.ratio(), Vector2::new(1, 1));
    assert_eq!(fit.as_is(), Vector2::new(64, 64));
    assert_eq!(
        fit.resized(),
        &[Vector2::new(16, 16), Vector2::new(32, 32), Vector2::new(48, 48), Vector2::new(64, 64), Vector2::new(80, 80), Vector2::new(96, 96)]
    );
}

#[test]
fn fit_is_least_mismatch_among_all_offered_sizes() {
    let size = Vector2::new(1128u32, 1840u32);
    for data in [
        GameData::new(GOLDSRC_MULTIPLE, HALF_LIFE_RELATIVE_SIZE),
        GameData::new(GOLDSRC_MULTIPLE, SVEN_COOP_RELATIVE_SIZE).biggest_ratios(),
    ] {
        let fit = data.fit_size(size);
        let best = size.symmetric_difference(fit.as_is());
        for ratio in data.ratios() {
            for n in 1..200u32 {
                let candidate = Vector2::new(ratio.x * 16 * n, ratio.y * 16 * n);
                assert!(size.symmetric_difference(candidate) >= best);
            }
        }
    }
}

#[test]
fn turning_the_image_keeps_the_least_mismatch() {
    for (w, h) in [(1128u32, 1840u32), (300, 77), (5, 900), (640, 480)] {
        for data in [
            GameData::new(GOLDSRC_MULTIPLE, HALF_LIFE_RELATIVE_SIZE),
            GameData::new(GOLDSRC_MULTIPLE, SVEN_COOP_RELATIVE_SIZE).biggest_ratios(),
        ] {
            let upright = Vector2::new(w, h);
            let turned = Vector2::new(h, w);
            let a = upright.symmetric_difference(data.fit_size(upright).as_is());
            let b = turned.symmetric_difference(data.fit_size(turned).as_is());
            assert_eq!(a, b);
        }
    }
}

#[test]
fn game_data_and_fits_are_positive() {
    let data = GameData::new(GOLDSRC_MULTIPLE, SVEN_COOP_RELATIVE_SIZE);
    assert!(data.ratios().iter().all(|r| r.x >= 1 && r.y >= 1 && r.x <= 8 && r.y <= 8));
    for size in [Vector2::new(1u32, 1u32), Vector2::new(1, 4000), Vector2::new(640, 480)] {
        let fit = data.fit_size(size);
        assert!(fit.as_is().x >= 1 && fit.as_is().y >= 1);
        assert!(fit.resized().iter().all(|s| s.x >= 1 && s.y >= 1));
    }
}

use hl_spray_size_calculator::dialogue::{
    anchor_rows, apply_opacity_bound, axis_fit, choose_size, fit_from_choice, fits_for_game,
    game_from_choice, opacity_bound_from, placement_for_choice, size_at, split_two_words, Anchor,
    AnchorError, AxisFit, FitChoice, Game, HorizontalAnchor, Placement, SizeError, VerticalAnchor,
};
use hl_spray_size_calculator::Vector2;

#[test]
fn game_choice_names_exactly_two_games() {
    assert_eq!(game_from_choice("Half-Life"), Some(Game::HalfLife));
    assert_eq!(game_from_choice("Sven-Coop"), Some(Game::SvenCoop));
    assert_eq!(game_from_choice("half-life"), None);
    assert_eq!(game_from_choice("Half-Life "), None);
    assert_eq!(game_from_choice(""), None);
    assert_eq!(Game::HalfLife.relative_size(), 42);
    assert_eq!(Game::SvenCoop.relative_size(), 56);
}

#[test]
fn fit_choice_names_exactly_two_fits() {
    assert_eq!(fit_from_choice("best"), Some(FitChoice::Best));
    assert_eq!(fit_from_choice("biggest"), Some(FitChoice::Biggest));
    assert_eq!(fit_from_choice("`best`"), None);
    assert_eq!(fit_from_choice("Best"), None);
}

#[test]
fn axis_fit_compares_lengths() {
    assert_eq!(axis_fit(3, 5), AxisFit::Smaller);
    assert_eq!(axis_fit(5, 5), AxisFit::Same);
    assert_eq!(axis_fit(7, 5), AxisFit::Larger);
}

fn anchor(vertical: VerticalAnchor, horizontal: HorizontalAnchor) -> Anchor {
    Anchor { vertical, horizontal }
}

#[test]
fn anchor_rows_follow_the_differing_directions() {
    let all = anchor_rows(Vector2::new(100, 50), Vector2::new(120, 40));
    assert_eq!(all.len(), 3);
    assert!(all.iter().all(|row| row.len() == 3));
    assert_eq!(all[0][0], anchor(VerticalAnchor::Top, HorizontalAnchor::Left));
    assert_eq!(all[2][2], anchor(VerticalAnchor::Bottom, HorizontalAnchor::Right));
    assert_eq!(all[1][1].label(), "╋");
    assert_eq!(all[0][2].label(), "┓");

    let widths = anchor_rows(Vector2::new(100, 50), Vector2::new(120, 50));
    assert_eq!(
        widths,
        vec![vec![
            anchor(VerticalAnchor::Center, HorizontalAnchor::Left),
            anchor(VerticalAnchor::Center, HorizontalAnchor::Center),
            anchor(VerticalAnchor::Center, HorizontalAnchor::Right),
        ]]
    );

    let heights = anchor_rows(Vector2::new(100, 50), Vector2::new(100, 10));
    assert_eq!(
        heights,
        vec![
            vec![anchor(VerticalAnchor::Top, HorizontalAnchor::Center)],
            vec![anchor(VerticalAnchor::Center, HorizontalAnchor::Center)],
            vec![anchor(VerticalAnchor::Bottom, HorizontalAnchor::Center)],
        ]
    );

    assert!(anchor_rows(Vector2::new(64, 64), Vector2::new(64, 64)).is_empty());
}

#[test]
fn anchor_words_round_trip_through_choices() {
    let a = anchor(VerticalAnchor::Bottom, HorizontalAnchor::Left);
    let choice = format!("{} {}", a.vertical_word(), a.horizontal_word());
    assert_eq!(choice, "bottom left");
    assert_eq!(split_two_words(&choice), Some(("bottom", "left")));
}

#[test]
fn split_two_words_needs_exactly_one_space() {
    assert_eq!(split_two_words("top left"), Some(("top", "left")));
    assert_eq!(split_two_words(" left"), Some(("", "left")));
    assert_eq!(split_two_words("top"), None);
    assert_eq!(split_two_words("top  left"), None);
    assert_eq!(split_two_words("a b c"), None);
}

#[test]
fn placement_crops_and_places() {
    let original = Vector2::new(100, 80);
    let canvas = Vector2::new(60, 120);
    assert_eq!(
        placement_for_choice(original, canvas, "center right"),
        Ok(Placement {
            crop_origin: Vector2::new(40, 0),
            canvas_origin: Vector2::new(0, 20),
            size: Vector2::new(60, 80),
        })
    );
    assert_eq!(
        placement_for_choice(original, canvas, "bottom center"),
        Ok(Placement {
            crop_origin: Vector2::new(20, 0),
            canvas_origin: Vector2::new(0, 40),
            size: Vector2::new(60, 80),
        })
    );
    assert_eq!(
        placement_for_choice(original, canvas, "top left"),
        Ok(Placement {
            crop_origin: Vector2::new(0, 0),
            canvas_origin: Vector2::new(0, 0),
            size: Vector2::new(60, 80),
        })
    );
    assert_eq!(placement_for_choice(original, canvas, "center"), Err(AnchorError::NotTwoWords));
    assert_eq!(placement_for_choice(original, canvas, "middle right"), Err(AnchorError::UnknownAnchor));
    assert_eq!(placement_for_choice(original, canvas, "top up"), Err(AnchorError::UnknownAnchor));
    // A word for a direction in which the sizes agree is not looked at.
    assert_eq!(
        placement_for_choice(Vector2::new(60, 80), canvas, "top anything"),
        Ok(Placement {
            crop_origin: Vector2::new(0, 0),
            canvas_origin: Vector2::new(0, 0),
            size: Vector2::new(60, 80),
        })
    );
}

#[test]
fn sizes_are_picked_by_position() {
    let sizes = [Vector2::new(48, 80), Vector2::new(96, 160)];
    assert_eq!(size_at(&sizes, 1), Some(Vector2::new(48, 80)));
    assert_eq!(size_at(&sizes, 0), None);
    assert_eq!(size_at(&sizes, 3), None);
    assert_eq!(choose_size(&sizes, " 2 \n"), Ok(Vector2::new(96, 160)));
    assert_eq!(choose_size(&sizes, "+1"), Ok(Vector2::new(48, 80)));
    assert_eq!(choose_size(&sizes, "0"), Err(SizeError::NotInList));
    assert_eq!(choose_size(&sizes, "3"), Err(SizeError::NotInList));
    assert_eq!(choose_size(&sizes, "two"), Err(SizeError::NotANumber));
    assert_eq!(choose_size(&sizes, "-1"), Err(SizeError::NotANumber));
    assert_eq!(choose_size(&sizes, ""), Err(SizeError::NotANumber));
}

#[test]
fn opacity_bound_is_a_u16() {
    assert_eq!(opacity_bound_from(" 100 "), Some(100));
    assert_eq!(opacity_bound_from("65535"), Some(65535));
    assert_eq!(opacity_bound_from("65536"), None);
    assert_eq!(opacity_bound_from("1.5"), None);
}

#[test]
fn opacity_bound_turns_pixels_above_it_blue() {
    // Opacities 5, 65535, 100 and 101 against the bound 100; the trailing sample is no pixel.
    let mut samples = vec![10, 20, 30, 5, 1, 2, 3, 65535, 7, 8, 9, 100, 4, 5, 6, 101, 9];
    apply_opacity_bound(&mut samples, 100);
    assert_eq!(
        samples,
        vec![10, 20, 30, 65535, 0, 0, 65535, 65535, 7, 8, 9, 65535, 0, 0, 65535, 65535, 9]
    );

    // With the bound 0 a fully opaque pixel turns blue, and a fully transparent one stays.
    let mut samples = vec![10, 20, 30, 65535, 40, 50, 60, 0];
    apply_opacity_bound(&mut samples, 0);
    assert_eq!(samples, vec![0, 0, 65535, 65535, 40, 50, 60, 65535]);

    // With the largest bound no pixel is above it.
    let mut samples = vec![10, 20, 30, 65535];
    apply_opacity_bound(&mut samples, 65535);
    assert_eq!(samples, vec![10, 20, 30, 65535]);
}

#[test]
fn fits_for_game_gives_best_and_biggest() {
    let size = Vector2::new(1128, 1840);
    let (best, biggest) = fits_for_game(Game::HalfLife, size).unwrap();
    assert_eq!(best.ratio(), Vector2::new(3, 5));
    assert_eq!(best.as_is(), Vector2::new(1104, 1840));
    assert_eq!(biggest.ratio(), Vector2::new(6, 7));
    assert_eq!(biggest.as_is(), Vector2::new(1152, 1344));
    assert_eq!(biggest.resized(), &[Vector2::new(96, 112)]);

    let (best, biggest) = fits_for_game(Game::SvenCoop, size).unwrap();
    assert_eq!(best.ratio(), Vector2::new(3, 5));
    assert_eq!(biggest.ratio(), Vector2::new(7, 8));
    assert_eq!(biggest.as_is(), Vector2::new(1232, 1408));

    assert!(fits_for_game(Game::HalfLife, Vector2::new(0, 10)).is_none());
    assert!(fits_for_game(Game::HalfLife, Vector2::new(70000, 70000)).is_none());
}

#[test]
fn size_choice_trims_unicode_white_space() {
    let sizes = vec![Vector2::new(16, 16), Vector2::new(32, 32)];
    assert_eq!(choose_size(&sizes, "\u{3000}2\u{85}\t"), Ok(Vector2::new(32, 32)));
    assert_eq!(opacity_bound_from("\u{a0} 7 \u{2029}"), Some(7));
    assert_eq!(choose_size(&sizes, "\u{200b}1"), Err(SizeError::NotANumber));
}

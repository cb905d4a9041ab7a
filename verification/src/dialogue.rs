//! The decisions of the spray-preparing conversation: which game and which fit the user
//! picked, which anchor points to offer, where an image lands on its new canvas, which spray
//! size was asked for, and how opacity becomes the transparency colour.

use vstd::prelude::*;
use crate::vector2::Vector2;
use crate::calculator::{
    GameData, RatioFittingResult, GOLDSRC_MULTIPLE, HALF_LIFE_RELATIVE_SIZE, SVEN_COOP_RELATIVE_SIZE,
    is_ratio_of, is_ratio_from, lowest_terms, lemma_square_ratio_allowed,
};
use crate::gcd::spec_gcd;

verus! {

/// Whether the text `s` is exactly `lit`.
fn text_is(s: &str, lit: &str) -> (r: bool)
    ensures
        r == (s@ == lit@),
{
    let n = s.unicode_len();
    if n != lit.unicode_len() {
        return false;
    }
    let mut i: usize = 0;
    while i < n
        invariant
            n == s@.len(),
            n == lit@.len(),
            i <= n,
            forall|j: int| 0 <= j < i ==> s@[j] == lit@[j],
        decreases n - i,
    {
        if s.get_char(i) != lit.get_char(i) {
            return false;
        }
        i += 1;
    }
    assert(s@ =~= lit@);
    true
}

/// A game that sprays are made for.
#[derive(Debug, Clone, Copy, PartialEq, Eq, Structural)]
pub enum Game {
    HalfLife,
    SvenCoop,
}

/// The largest spray area of a game, in squares of the GoldSrc multiple.
pub open spec fn spec_relative_size(game: Game) -> u32 {
    match game {
        Game::HalfLife => HALF_LIFE_RELATIVE_SIZE,
        Game::SvenCoop => SVEN_COOP_RELATIVE_SIZE,
    }
}

impl Game {
    /// The largest spray area of the game, in squares of the GoldSrc multiple.
    pub fn relative_size(&self) -> (r: u32)
        ensures
            r == spec_relative_size(*self),
    {
        match self {
            Game::HalfLife => HALF_LIFE_RELATIVE_SIZE,
            Game::SvenCoop => SVEN_COOP_RELATIVE_SIZE,
        }
    }
}

/// The game a choice names: `Half-Life` or `Sven-Coop`, and nothing else.
pub fn game_from_choice(choice: &str) -> (r: Option<Game>)
    ensures
        r == (if choice@ == "Half-Life"@ {
            Some(Game::HalfLife)
        } else if choice@ == "Sven-Coop"@ {
            Some(Game::SvenCoop)
        } else {
            None
        }),
{
    if text_is(choice, "Half-Life") {
        Some(Game::HalfLife)
    } else if text_is(choice, "Sven-Coop") {
        Some(Game::SvenCoop)
    } else {
        None
    }
}

/// Which of the two fits the user picks: to any allowed ratio, or to a ratio of the largest
/// area.
#[derive(Debug, Clone, Copy, PartialEq, Eq, Structural)]
pub enum FitChoice {
    Best,
    Biggest,
}

/// The fit a choice names: `best` or `biggest`, and nothing else.
pub fn fit_from_choice(choice: &str) -> (r: Option<FitChoice>)
    ensures
        r == (if choice@ == "best"@ {
            Some(FitChoice::Best)
        } else if choice@ == "biggest"@ {
            Some(FitChoice::Biggest)
        } else {
            None
        }),
{
    if text_is(choice, "best") {
        Some(FitChoice::Best)
    } else if text_is(choice, "biggest") {
        Some(FitChoice::Biggest)
    } else {
        None
    }
}

/// How an image compares with its future canvas along one axis.
#[derive(Debug, Clone, Copy, PartialEq, Eq, Structural)]
pub enum AxisFit {
    /// The image is shorter: the anchor places it on the canvas.
    Smaller,
    /// Both have the same length: nothing to choose.
    Same,
    /// The image is longer: the anchor picks where it is cropped.
    Larger,
}

/// How an image of length `original` compares with a canvas of length `canvas`.
pub open spec fn spec_axis_fit(original: u32, canvas: u32) -> AxisFit {
    if original < canvas {
        AxisFit::Smaller
    } else if original == canvas {
        AxisFit::Same
    } else {
        AxisFit::Larger
    }
}

/// How an image of length `original` compares with a canvas of length `canvas`.
pub fn axis_fit(original: u32, canvas: u32) -> (r: AxisFit)
    ensures
        r == spec_axis_fit(original, canvas),
{
    if original < canvas {
        AxisFit::Smaller
    } else if original == canvas {
        AxisFit::Same
    } else {
        AxisFit::Larger
    }
}

/// A vertical anchor point.
#[derive(Debug, Clone, Copy, PartialEq, Eq, Structural)]
pub enum VerticalAnchor {
    Top,
    Center,
    Bottom,
}

/// A horizontal anchor point.
#[derive(Debug, Clone, Copy, PartialEq, Eq, Structural)]
pub enum HorizontalAnchor {
    Left,
    Center,
    Right,
}

/// An anchor point: vertical, then horizontal.
#[derive(Debug, Clone, Copy, PartialEq, Eq, Structural)]
pub struct Anchor {
    pub vertical: VerticalAnchor,
    pub horizontal: HorizontalAnchor,
}

/// The word for a vertical anchor.
pub open spec fn spec_vertical_word(v: VerticalAnchor) -> Seq<char> {
    match v {
        VerticalAnchor::Top => "top"@,
        VerticalAnchor::Center => "center"@,
        VerticalAnchor::Bottom => "bottom"@,
    }
}

/// The word for a horizontal anchor.
pub open spec fn spec_horizontal_word(h: HorizontalAnchor) -> Seq<char> {
    match h {
        HorizontalAnchor::Left => "left"@,
        HorizontalAnchor::Center => "center"@,
        HorizontalAnchor::Right => "right"@,
    }
}

/// The button label of an anchor point: a box-drawing piece in its position.
pub open spec fn spec_label(a: Anchor) -> Seq<char> {
    match (a.vertical, a.horizontal) {
        (VerticalAnchor::Top, HorizontalAnchor::Left) => "┏"@,
        (VerticalAnchor::Top, HorizontalAnchor::Center) => "━"@,
        (VerticalAnchor::Top, HorizontalAnchor::Right) => "┓"@,
        (VerticalAnchor::Center, HorizontalAnchor::Left) => "┃"@,
        (VerticalAnchor::Center, HorizontalAnchor::Center) => "╋"@,
        (VerticalAnchor::Center, HorizontalAnchor::Right) => "┃"@,
        (VerticalAnchor::Bottom, HorizontalAnchor::Left) => "┗"@,
        (VerticalAnchor::Bottom, HorizontalAnchor::Center) => "━"@,
        (VerticalAnchor::Bottom, HorizontalAnchor::Right) => "┛"@,
    }
}

impl Anchor {
    /// The word for the vertical anchor point.
    pub fn vertical_word(&self) -> (r: &'static str)
        ensures
            r@ == spec_vertical_word(self.vertical),
    {
        match self.vertical {
            VerticalAnchor::Top => "top",
            VerticalAnchor::Center => "center",
            VerticalAnchor::Bottom => "bottom",
        }
    }

    /// The word for the horizontal anchor point.
    pub fn horizontal_word(&self) -> (r: &'static str)
        ensures
            r@ == spec_horizontal_word(self.horizontal),
    {
        match self.horizontal {
            HorizontalAnchor::Left => "left",
            HorizontalAnchor::Center => "center",
            HorizontalAnchor::Right => "right",
        }
    }

    /// The button label of the anchor point: a box-drawing piece in its position.
    pub fn label(&self) -> (r: &'static str)
        ensures
            r@ == spec_label(*self),
    {
        match (self.vertical, self.horizontal) {
            (VerticalAnchor::Top, HorizontalAnchor::Left) => "┏",
            (VerticalAnchor::Top, HorizontalAnchor::Center) => "━",
            (VerticalAnchor::Top, HorizontalAnchor::Right) => "┓",
            (VerticalAnchor::Center, HorizontalAnchor::Left) => "┃",
            (VerticalAnchor::Center, HorizontalAnchor::Center) => "╋",
            (VerticalAnchor::Center, HorizontalAnchor::Right) => "┃",
            (VerticalAnchor::Bottom, HorizontalAnchor::Left) => "┗",
            (VerticalAnchor::Bottom, HorizontalAnchor::Center) => "━",
            (VerticalAnchor::Bottom, HorizontalAnchor::Right) => "┛",
        }
    }
}

/// The anchor points offered, row by row: all nine when the image differs from the canvas
/// in both directions, the middle row when only the widths differ, the middle column when
/// only the heights differ, and none when the sizes are equal.
pub open spec fn spec_anchor_rows(horizontal: AxisFit, vertical: AxisFit) -> Seq<Seq<Anchor>> {
    let vs = seq![VerticalAnchor::Top, VerticalAnchor::Center, VerticalAnchor::Bottom];
    let hs = seq![HorizontalAnchor::Left, HorizontalAnchor::Center, HorizontalAnchor::Right];
    if horizontal != AxisFit::Same && vertical != AxisFit::Same {
        vs.map_values(|v: VerticalAnchor| hs.map_values(|h: HorizontalAnchor| Anchor { vertical: v, horizontal: h }))
    } else if horizontal != AxisFit::Same {
        seq![hs.map_values(|h: HorizontalAnchor| Anchor { vertical: VerticalAnchor::Center, horizontal: h })]
    } else if vertical != AxisFit::Same {
        vs.map_values(|v: VerticalAnchor| seq![Anchor { vertical: v, horizontal: HorizontalAnchor::Center }])
    } else {
        seq![]
    }
}

/// The anchor points come in reading order: rows run top, center, bottom from the first row
/// to the last, and within a row the points run left, center, right; every row holds one
/// vertical anchor. All three columns are offered exactly when the widths differ, all three
/// rows exactly when the heights differ, and nothing when neither does; a direction in which
/// the sizes agree offers only its center.
pub proof fn lemma_anchor_rows_in_reading_order(horizontal: AxisFit, vertical: AxisFit)
    ensures
        (spec_anchor_rows(horizontal, vertical).len() == 0) <==> (horizontal == AxisFit::Same && vertical == AxisFit::Same),
        spec_anchor_rows(horizontal, vertical).len() > 0 ==> (spec_anchor_rows(horizontal, vertical).len() == 3 <==> vertical != AxisFit::Same),
        spec_anchor_rows(horizontal, vertical).len() > 0 ==> (spec_anchor_rows(horizontal, vertical).len() == 1 <==> vertical == AxisFit::Same),
        forall|i: int| 0 <= i < spec_anchor_rows(horizontal, vertical).len() ==> {
            let row = #[trigger] spec_anchor_rows(horizontal, vertical)[i];
            &&& (row.len() == 3 <==> horizontal != AxisFit::Same)
            &&& (row.len() == 1 <==> horizontal == AxisFit::Same)
            &&& row.len() == 3 ==> row[0].horizontal == HorizontalAnchor::Left
                && row[1].horizontal == HorizontalAnchor::Center
                && row[2].horizontal == HorizontalAnchor::Right
            &&& row.len() == 1 ==> row[0].horizontal == HorizontalAnchor::Center
            &&& forall|j: int| 0 <= j < row.len() ==> #[trigger] row[j].vertical == (
                if spec_anchor_rows(horizontal, vertical).len() == 1 {
                    VerticalAnchor::Center
                } else if i == 0 {
                    VerticalAnchor::Top
                } else if i == 1 {
                    VerticalAnchor::Center
                } else {
                    VerticalAnchor::Bottom
                })
        },
{
    let rows = spec_anchor_rows(horizontal, vertical);
    if rows.len() > 0 {
        assert forall|i: int| 0 <= i < rows.len() implies rows[i].len() == 3 || rows[i].len() == 1 by {}
    }
}

/// One row of anchor points with the given vertical anchor.
fn anchor_row(v: VerticalAnchor) -> (row: Vec<Anchor>)
    ensures
        row@ == seq![HorizontalAnchor::Left, HorizontalAnchor::Center, HorizontalAnchor::Right]
            .map_values(|h: HorizontalAnchor| Anchor { vertical: v, horizontal: h }),
{
    let row = vec![
        Anchor { vertical: v, horizontal: HorizontalAnchor::Left },
        Anchor { vertical: v, horizontal: HorizontalAnchor::Center },
        Anchor { vertical: v, horizontal: HorizontalAnchor::Right },
    ];
    assert(row@ =~= seq![HorizontalAnchor::Left, HorizontalAnchor::Center, HorizontalAnchor::Right]
        .map_values(|h: HorizontalAnchor| Anchor { vertical: v, horizontal: h }));
    row
}

/// The anchor points to offer for an image of size `original` on a canvas of size `canvas`,
/// row by row.
pub fn anchor_rows(original: Vector2<u32>, canvas: Vector2<u32>) -> (rows: Vec<Vec<Anchor>>)
    ensures
        rows@.map_values(|row: Vec<Anchor>| row@) == spec_anchor_rows(
            spec_axis_fit(original.x, canvas.x),
            spec_axis_fit(original.y, canvas.y),
        ),
{
    let horizontal = axis_fit(original.x, canvas.x);
    let vertical = axis_fit(original.y, canvas.y);
    let ghost want = spec_anchor_rows(horizontal, vertical);
    let ghost vs = seq![VerticalAnchor::Top, VerticalAnchor::Center, VerticalAnchor::Bottom];
    let ghost hs = seq![HorizontalAnchor::Left, HorizontalAnchor::Center, HorizontalAnchor::Right];
    let mut rows: Vec<Vec<Anchor>> = Vec::new();
    if horizontal != AxisFit::Same && vertical != AxisFit::Same {
        rows.push(anchor_row(VerticalAnchor::Top));
        rows.push(anchor_row(VerticalAnchor::Center));
        rows.push(anchor_row(VerticalAnchor::Bottom));
        assert(want.len() == 3);
        assert(rows@[0]@ == want[0] && rows@[1]@ == want[1] && rows@[2]@ == want[2]);
    } else if horizontal != AxisFit::Same {
        rows.push(anchor_row(VerticalAnchor::Center));
        assert(want.len() == 1);
        assert(rows@[0]@ == want[0]);
    } else if vertical != AxisFit::Same {
        rows.push(vec![Anchor { vertical: VerticalAnchor::Top, horizontal: HorizontalAnchor::Center }]);
        rows.push(vec![Anchor { vertical: VerticalAnchor::Center, horizontal: HorizontalAnchor::Center }]);
        rows.push(vec![Anchor { vertical: VerticalAnchor::Bottom, horizontal: HorizontalAnchor::Center }]);
        assert(want.len() == 3);
        assert(rows@[0]@ =~= want[0] && rows@[1]@ =~= want[1] && rows@[2]@ =~= want[2]);
    } else {
        assert(want.len() == 0);
    }
    assert(rows@.map_values(|row: Vec<Anchor>| row@) =~= want);
    rows
}

/// `s` is the word `a`, one space, and the word `b`, neither word holding a space: what
/// splitting `s` at spaces gives when it gives exactly two pieces.
pub open spec fn is_two_words(s: Seq<char>, a: Seq<char>, b: Seq<char>) -> bool {
    &&& s == a + seq![' '] + b
    &&& !a.contains(' ')
    &&& !b.contains(' ')
}

/// The two pieces of `s` split at spaces, when there are exactly two.
pub fn split_two_words(s: &str) -> (r: Option<(&str, &str)>)
    ensures
        r matches Some((a, b)) ==> is_two_words(s@, a@, b@),
        r is None ==> forall|a: Seq<char>, b: Seq<char>| !#[trigger] is_two_words(s@, a, b),
{
    let n = s.unicode_len();
    let mut first: usize = 0;
    while first < n && s.get_char(first) != ' '
        invariant
            n == s@.len(),
            first <= n,
            forall|j: int| 0 <= j < first ==> s@[j] != ' ',
        decreases n - first,
    {
        first += 1;
    }
    if first == n {
        assert forall|a: Seq<char>, b: Seq<char>| !#[trigger] is_two_words(s@, a, b) by {
            if is_two_words(s@, a, b) {
                assert(s@[a.len() as int] == ' ');
            }
        }
        return None;
    }
    let mut k: usize = first + 1;
    while k < n && s.get_char(k) != ' '
        invariant
            n == s@.len(),
            first < k <= n,
            s@[first as int] == ' ',
            forall|j: int| first < j < k ==> s@[j] != ' ',
        decreases n - k,
    {
        k += 1;
    }
    if k < n {
        // A second space: any split into two words would leave a space in one of them.
        assert forall|a: Seq<char>, b: Seq<char>| !#[trigger] is_two_words(s@, a, b) by {
            if is_two_words(s@, a, b) {
                let p = a.len() as int;
                if first < p {
                    assert(a[first as int] == ' ');
                } else if first > p {
                    assert(b[first - p - 1] == ' ');
                } else {
                    assert(b[k - p - 1] == ' ');
                }
            }
        }
        return None;
    }
    let a = s.substring_char(0, first);
    let b = s.substring_char(first + 1, n);
    assert(s@ =~= a@ + seq![' '] + b@);
    assert(!a@.contains(' ')) by {
        if a@.contains(' ') {
            let j = choose|j: int| 0 <= j < a@.len() && a@[j] == ' ';
            assert(s@[j] == ' ');
        }
    }
    assert(!b@.contains(' ')) by {
        if b@.contains(' ') {
            let j = choose|j: int| 0 <= j < b@.len() && b@[j] == ' ';
            assert(s@[first + 1 + j] == ' ');
        }
    }
    Some((a, b))
}

/// A text splits into two words in at most one way.
pub proof fn lemma_two_words_unique(s: Seq<char>, a: Seq<char>, b: Seq<char>, c: Seq<char>, d: Seq<char>)
    requires
        is_two_words(s, a, b),
        is_two_words(s, c, d),
    ensures
        a == c,
        b == d,
{
    if a.len() < c.len() {
        assert(s[a.len() as int] == ' ');
        assert(c[a.len() as int] == s[a.len() as int]);
        assert(c.contains(' '));
    } else if c.len() < a.len() {
        assert(s[c.len() as int] == ' ');
        assert(a[c.len() as int] == s[c.len() as int]);
        assert(a.contains(' '));
    } else {
        assert(a =~= s.subrange(0, a.len() as int));
        assert(c =~= s.subrange(0, c.len() as int));
        assert(b =~= s.subrange(a.len() as int + 1, s.len() as int));
        assert(d =~= s.subrange(c.len() as int + 1, s.len() as int));
    }
}

/// Where an image goes on its canvas: the part of the image that is kept, given by its origin
/// in the image and its size, and the origin on the canvas where that part lands.
#[derive(Debug, Clone, Copy, PartialEq, Eq)]
pub struct Placement {
    pub crop_origin: Vector2<u32>,
    pub canvas_origin: Vector2<u32>,
    pub size: Vector2<u32>,
}

/// Why an anchor choice cannot be used.
#[derive(Debug, Clone, Copy, PartialEq, Eq, Structural)]
pub enum AnchorError {
    /// The choice is not two words separated by a space.
    NotTwoWords,
    /// A word for a direction in which image and canvas differ names no anchor point.
    UnknownAnchor,
}

/// The offsets along one axis for the anchor word `word`, `low` and `high` being the words for
/// the two ends: the crop offset in the image and the offset on the canvas. Where the image is
/// longer, the anchor picks the crop; where it is shorter, its place on the canvas; where both
/// are the same length, the word is not looked at.
pub open spec fn spec_axis_offsets(
    original: u32,
    canvas: u32,
    word: Seq<char>,
    low: Seq<char>,
    high: Seq<char>,
) -> Option<(u32, u32)> {
    if original > canvas {
        if word == low {
            Some((0u32, 0u32))
        } else if word == "center"@ {
            Some((((original - canvas) / 2) as u32, 0u32))
        } else if word == high {
            Some(((original - canvas) as u32, 0u32))
        } else {
            None
        }
    } else if original < canvas {
        if word == low {
            Some((0u32, 0u32))
        } else if word == "center"@ {
            Some((0u32, ((canvas - original) / 2) as u32))
        } else if word == high {
            Some((0u32, (canvas - original) as u32))
        } else {
            None
        }
    } else {
        Some((0u32, 0u32))
    }
}

fn axis_offsets(original: u32, canvas: u32, word: &str, low: &str, high: &str) -> (r: Option<(u32, u32)>)
    ensures
        r == spec_axis_offsets(original, canvas, word@, low@, high@),
{
    if original > canvas {
        if text_is(word, low) {
            Some((0, 0))
        } else if text_is(word, "center") {
            Some(((original - canvas) / 2, 0))
        } else if text_is(word, high) {
            Some((original - canvas, 0))
        } else {
            None
        }
    } else if original < canvas {
        if text_is(word, low) {
            Some((0, 0))
        } else if text_is(word, "center") {
            Some((0, (canvas - original) / 2))
        } else if text_is(word, high) {
            Some((0, canvas - original))
        } else {
            None
        }
    } else {
        Some((0, 0))
    }
}

/// The placement for the anchor words `vertical` and `horizontal`, or `None` when a word that
/// is needed names no anchor point.
pub open spec fn spec_placement(
    original: Vector2<u32>,
    canvas: Vector2<u32>,
    vertical: Seq<char>,
    horizontal: Seq<char>,
) -> Option<Placement> {
    let h = spec_axis_offsets(original.x, canvas.x, horizontal, "left"@, "right"@);
    let v = spec_axis_offsets(original.y, canvas.y, vertical, "top"@, "bottom"@);
    match (h, v) {
        (Some((crop_x, place_x)), Some((crop_y, place_y))) => Some(Placement {
            crop_origin: Vector2 { x: crop_x, y: crop_y },
            canvas_origin: Vector2 { x: place_x, y: place_y },
            size: Vector2 {
                x: if original.x <= canvas.x { original.x } else { canvas.x },
                y: if original.y <= canvas.y { original.y } else { canvas.y },
            },
        }),
        _ => None,
    }
}

/// Where an image of size `original` goes on a canvas of size `canvas` for the anchor choice
/// `choice`: a vertical word (`top`, `center`, `bottom`), a space, and a horizontal word
/// (`left`, `center`, `right`).
pub fn placement_for_choice(original: Vector2<u32>, canvas: Vector2<u32>, choice: &str) -> (r: Result<Placement, AnchorError>)
    ensures
        r == Err::<Placement, AnchorError>(AnchorError::NotTwoWords) <==> forall|a: Seq<char>, b: Seq<char>| !#[trigger] is_two_words(choice@, a, b),
        r matches Ok(p) ==> exists|a: Seq<char>, b: Seq<char>| #[trigger] is_two_words(choice@, a, b) && spec_placement(original, canvas, a, b) == Some(p),
        r == Err::<Placement, AnchorError>(AnchorError::UnknownAnchor) ==> exists|a: Seq<char>, b: Seq<char>| #[trigger] is_two_words(choice@, a, b) && spec_placement(original, canvas, a, b) is None,
        r is Ok <==> exists|a: Seq<char>, b: Seq<char>| #[trigger] is_two_words(choice@, a, b) && spec_placement(original, canvas, a, b) is Some,
{
    let (vertical, horizontal) = match split_two_words(choice) {
        Some(words) => words,
        None => return Err(AnchorError::NotTwoWords),
    };
    assert(is_two_words(choice@, vertical@, horizontal@));
    assert forall|a: Seq<char>, b: Seq<char>| #[trigger] is_two_words(choice@, a, b) implies a == vertical@ && b == horizontal@ by {
        lemma_two_words_unique(choice@, a, b, vertical@, horizontal@);
    }
    let (crop_x, place_x) = match axis_offsets(original.x, canvas.x, horizontal, "left", "right") {
        Some(offsets) => offsets,
        None => return Err(AnchorError::UnknownAnchor),
    };
    let (crop_y, place_y) = match axis_offsets(original.y, canvas.y, vertical, "top", "bottom") {
        Some(offsets) => offsets,
        None => return Err(AnchorError::UnknownAnchor),
    };
    let size = Vector2 {
        x: if original.x <= canvas.x { original.x } else { canvas.x },
        y: if original.y <= canvas.y { original.y } else { canvas.y },
    };
    Ok(Placement {
        crop_origin: Vector2 { x: crop_x, y: crop_y },
        canvas_origin: Vector2 { x: place_x, y: place_y },
        size,
    })
}

/// A decimal digit `0`..`9`.
pub open spec fn is_decimal_digit(c: char) -> bool {
    '0' <= c && c <= '9'
}

/// The number that the decimal digits `d` spell.
pub open spec fn decimal_value(d: Seq<char>) -> nat
    decreases d.len(),
{
    if d.len() == 0 {
        0
    } else {
        decimal_value(d.drop_last()) * 10 + (d.last() as nat - '0' as nat) as nat
    }
}

/// The number that `s` spells as an unsigned integer no greater than `max`: an optional `+`
/// and then one or more decimal digits, with nothing before or after.
pub open spec fn unsigned_value(s: Seq<char>, max: nat) -> Option<nat> {
    let d = if s.len() > 0 && s[0] == '+' {
        s.drop_first()
    } else {
        s
    };
    if d.len() > 0 && (forall|i: int| 0 <= i < d.len() ==> is_decimal_digit(#[trigger] d[i]))
        && decimal_value(d) <= max {
        Some(decimal_value(d))
    } else {
        None
    }
}

/// A character with the Unicode `White_Space` property.
pub open spec fn is_white_space(c: char) -> bool {
    let n = c as u32;
    ||| 0x9 <= n <= 0xD
    ||| n == 0x20
    ||| n == 0x85
    ||| n == 0xA0
    ||| n == 0x1680
    ||| 0x2000 <= n <= 0x200A
    ||| n == 0x2028
    ||| n == 0x2029
    ||| n == 0x202F
    ||| n == 0x205F
    ||| n == 0x3000
}

/// `s` without its leading white space.
pub open spec fn trim_start(s: Seq<char>) -> Seq<char>
    decreases s.len(),
{
    if s.len() > 0 && is_white_space(s[0]) {
        trim_start(s.drop_first())
    } else {
        s
    }
}

/// `s` without its trailing white space.
pub open spec fn trim_end(s: Seq<char>) -> Seq<char>
    decreases s.len(),
{
    if s.len() > 0 && is_white_space(s.last()) {
        trim_end(s.drop_last())
    } else {
        s
    }
}

/// `s` without its leading and trailing white space.
pub open spec fn trimmed(s: Seq<char>) -> Seq<char> {
    trim_end(trim_start(s))
}

/// `str::trim` from std: `s` with leading and trailing white space (the Unicode
/// `White_Space` property) removed.
#[verifier::external_body]
fn trim_text(s: &str) -> (r: &str)
    ensures
        r@ == trimmed(s@),
{
    s.trim()
}

/// `usize`'s `FromStr` from std: an optional `+` followed by decimal digits only, whose value
/// fits in a `usize`, parses to that value; anything else is an error.
#[verifier::external_body]
fn parse_usize(s: &str) -> (r: Option<usize>)
    ensures
        r is Some <==> unsigned_value(s@, usize::MAX as nat) is Some,
        r matches Some(v) ==> v == unsigned_value(s@, usize::MAX as nat)->0,
{
    s.parse::<usize>().ok()
}

/// `u16`'s `FromStr` from std: an optional `+` followed by decimal digits only, whose value
/// fits in a `u16`, parses to that value; anything else is an error.
#[verifier::external_body]
fn parse_u16(s: &str) -> (r: Option<u16>)
    ensures
        r is Some <==> unsigned_value(s@, u16::MAX as nat) is Some,
        r matches Some(v) ==> v == unsigned_value(s@, u16::MAX as nat)->0,
{
    s.parse::<u16>().ok()
}

/// Why a spray size cannot be picked from a message.
#[derive(Debug, Clone, Copy, PartialEq, Eq, Structural)]
pub enum SizeError {
    /// The message is not a number.
    NotANumber,
    /// The number is not one of the list's positions, counted from one.
    NotInList,
}

/// The size at position `index` of `sizes`, counting from one.
pub fn size_at(sizes: &[Vector2<u32>], index: usize) -> (r: Option<Vector2<u32>>)
    ensures
        r == (if 1 <= index <= sizes@.len() {
            Some(sizes@[index - 1])
        } else {
            None
        }),
{
    if index == 0 || index > sizes.len() {
        None
    } else {
        Some(sizes[index - 1])
    }
}

/// The size a message picks from the list `sizes`: the message, trimmed, is its position in
/// the list, counting from one.
pub fn choose_size(sizes: &[Vector2<u32>], text: &str) -> (r: Result<Vector2<u32>, SizeError>)
    ensures
        r == (match unsigned_value(trimmed(text@), usize::MAX as nat) {
            None => Err(SizeError::NotANumber),
            Some(i) => if 1 <= i <= sizes@.len() {
                Ok(sizes@[i - 1])
            } else {
                Err(SizeError::NotInList)
            },
        }),
{
    let text = trim_text(text);
    match parse_usize(text) {
        None => Err(SizeError::NotANumber),
        Some(index) => match size_at(sizes, index) {
            Some(size) => Ok(size),
            None => Err(SizeError::NotInList),
        },
    }
}

/// The opacity bound a message gives: the message, trimmed, as a `u16`.
pub fn opacity_bound_from(text: &str) -> (r: Option<u16>)
    ensures
        r is Some <==> unsigned_value(trimmed(text@), u16::MAX as nat) is Some,
        r matches Some(v) ==> v == unsigned_value(trimmed(text@), u16::MAX as nat)->0,
{
    let text = trim_text(text);
    parse_u16(text)
}

/// Sample `i` of the RGBA samples `s` (16 bits a sample, four samples a pixel) after the
/// opacity bound `bound`: a pixel whose opacity is above `bound` turns pure blue, every pixel
/// turns fully opaque, and samples after the last whole pixel stay as they are.
pub open spec fn bounded_sample(s: Seq<u16>, bound: u16, i: int) -> u16 {
    let base = i - i % 4;
    if base + 4 > s.len() {
        s[i]
    } else if i % 4 == 3 {
        u16::MAX
    } else if s[base + 3] > bound {
        if i % 4 == 2 {
            u16::MAX
        } else {
            0u16
        }
    } else {
        s[i]
    }
}

/// The RGBA samples `s` after the opacity bound `bound`.
pub open spec fn bounded_samples(s: Seq<u16>, bound: u16) -> Seq<u16> {
    Seq::new(s.len(), |i: int| bounded_sample(s, bound, i))
}

/// Applies the opacity bound `bound` to every whole pixel of the RGBA samples `samples`.
pub fn apply_opacity_bound(samples: &mut Vec<u16>, bound: u16)
    ensures
        final(samples)@ == bounded_samples(old(samples)@, bound),
{
    let ghost before = samples@;
    let pixels = samples.len() / 4;
    let mut p: usize = 0;
    while p < pixels
        invariant
            pixels == before.len() / 4,
            before.len() <= usize::MAX,
            samples@.len() == before.len(),
            p <= pixels,
            forall|i: int| 0 <= i < 4 * p ==> samples@[i] == #[trigger] bounded_sample(before, bound, i),
            forall|i: int| 4 * p <= i < before.len() ==> samples@[i] == before[i],
        decreases pixels - p,
    {
        assert(4 * p + 4 <= before.len()) by {
            vstd::arithmetic::div_mod::lemma_fundamental_div_mod(before.len() as int, 4);
        }
        let base = 4 * p;
        if samples[base + 3] > bound {
            samples.set(base, 0);
            samples.set(base + 1, 0);
            samples.set(base + 2, u16::MAX);
        }
        samples.set(base + 3, u16::MAX);
        assert forall|i: int| 4 * p <= i < 4 * p + 4 implies samples@[i] == #[trigger] bounded_sample(before, bound, i) by {
            assert(i - i % 4 == 4 * p);
        }
        p += 1;
    }
    assert forall|i: int| 0 <= i < before.len() implies samples@[i] == #[trigger] bounded_sample(before, bound, i) by {
        if i >= 4 * pixels {
            vstd::arithmetic::div_mod::lemma_fundamental_div_mod(before.len() as int, 4);
            assert(i - i % 4 + 4 > before.len());
        }
    }
    assert(samples@ =~= bounded_samples(before, bound));
}

/// `fit` is what fitting an image of size `o` gives for game data of `game`, with the GoldSrc
/// multiple and every ratio of the game, or only those of its largest area when `whole_area`
/// holds.
pub open spec fn is_game_fit(game: Game, o: Vector2<u32>, whole_area: bool, fit: RatioFittingResult) -> bool {
    exists|data: GameData, i: int| #![trigger data.is_fit_choice(o, i, fit)]
        data.well_formed()
        && data.spec_multiple() == GOLDSRC_MULTIPLE
        && data.spec_max_relative_size() == spec_relative_size(game)
        && data.has_ratios_of(spec_relative_size(game) as int, whole_area)
        && data.is_fit_choice(o, i, fit)
}

/// A game's largest area has a ratio: `6:7` for Half-Life, `7:8` for Sven Co-op.
proof fn lemma_game_has_biggest_ratio(game: Game)
    ensures
        exists|v: Vector2<u32>| is_ratio_of(v, spec_relative_size(game) as int, true),
{
    match game {
        Game::HalfLife => {
            assert(spec_gcd(6, 7) == 1) by {
                assert(spec_gcd(1, 0) == 1);
                assert(spec_gcd(6, 1) == spec_gcd(1, 0));
                assert(spec_gcd(7, 6) == spec_gcd(6, 1));
                assert(spec_gcd(6, 7) == spec_gcd(7, 6));
            }
            let v = lowest_terms(6, 7);
            assert(is_ratio_from(v, 42, true, 6, 7));
            assert(is_ratio_of(v, 42, true));
            assert(is_ratio_of(v, spec_relative_size(game) as int, true));
        },
        Game::SvenCoop => {
            assert(spec_gcd(7, 8) == 1) by {
                assert(spec_gcd(1, 0) == 1);
                assert(spec_gcd(7, 1) == spec_gcd(1, 0));
                assert(spec_gcd(8, 7) == spec_gcd(7, 1));
                assert(spec_gcd(7, 8) == spec_gcd(8, 7));
            }
            let v = lowest_terms(7, 8);
            assert(is_ratio_from(v, 56, true, 7, 8));
            assert(is_ratio_of(v, 56, true));
            assert(is_ratio_of(v, spec_relative_size(game) as int, true));
        },
    }
}

/// The two fits offered for an image of size `original` in `game`: to any ratio of the game
/// (the `best` fit), and to a ratio of its largest area (the `biggest` fit). There are none
/// unless the image's sides are positive and its area fits in a `u32`.
pub fn fits_for_game(game: Game, original: Vector2<u32>) -> (r: Option<(RatioFittingResult, RatioFittingResult)>)
    ensures
        r is Some <==> (original.x >= 1 && original.y >= 1 && original.x * original.y <= u32::MAX),
        r matches Some((best, biggest)) ==> is_game_fit(game, original, false, best) && is_game_fit(game, original, true, biggest),
{
    if original.x == 0 || original.y == 0 {
        return None;
    }
    assert((original.x as u64) * (original.y as u64) <= u32::MAX as u64 * u32::MAX as u64) by (nonlinear_arith)
        requires
            original.x <= u32::MAX,
            original.y <= u32::MAX,
    ;
    if (original.x as u64) * (original.y as u64) > u32::MAX as u64 {
        return None;
    }
    let size = game.relative_size();
    let mut game_data = GameData::new(GOLDSRC_MULTIPLE, size);
    proof {
        lemma_square_ratio_allowed(size as int);
        assert(game_data.spec_ratios().contains(Vector2 { x: 1u32, y: 1u32 }));
    }
    let best_fit = game_data.fit_size(original);
    let ghost all_data = game_data;
    game_data = game_data.biggest_ratios();
    proof {
        lemma_game_has_biggest_ratio(game);
        let v = choose|v: Vector2<u32>| is_ratio_of(v, spec_relative_size(game) as int, true);
        assert(game_data.spec_ratios().contains(v));
    }
    let biggest_fit = game_data.fit_size(original);
    proof {
        let i = choose|i: int| all_data.is_fit_choice(original, i, best_fit);
        let j = choose|j: int| game_data.is_fit_choice(original, j, biggest_fit);
        assert(all_data.is_fit_choice(original, i, best_fit));
        assert(game_data.is_fit_choice(original, j, biggest_fit));
    }
    Some((best_fit, biggest_fit))
}

} // verus!

use yui::bounds::{Bounds, Cling};
use yui::combine::{Before, Fade};
use yui::layout::{LayoutContext, Yard};
use yui::palette::{FillColor, StrokeColor};
use yui::screen::SpotStack;
use yui::yards::{fill_yard, glyph_yard, label_yard, FillYard};

const BACKGROUND: FillColor = FillColor::Background;
const PRIMARY: FillColor = FillColor::Primary;

/// The fill each cell shows, row by row, when `fills` are drawn into it at
/// the depths of their regions.
fn cell_fills(ctx: &LayoutContext, fills: &[&FillYard], cols: i32, rows: i32) -> Vec<FillColor> {
    let mut shown = Vec::new();
    for row in 0..rows {
        for col in 0..cols {
            let mut spot = SpotStack::new();
            for fill in fills {
                let bounds: Bounds = *ctx.hold().yard_bounds(fill.id);
                if bounds.intersects(row, col) {
                    spot.set_fill(fill.color, bounds.z);
                }
            }
            shown.push(spot.shown().2);
        }
    }
    shown
}

#[test]
fn before_layout_render() {
    let white = fill_yard(FillColor::Background);
    let black = fill_yard(FillColor::Primary);
    let yard = black.before(white);
    let (max_x, max_y) = (2, 1);
    let mut ctx = LayoutContext::new(max_x, max_y);
    yard.layout(&mut ctx);
    let fills = cell_fills(&ctx, &[&yard.far_yard, &yard.near_yard], max_x, max_y);
    assert_eq!(fills, vec![FillColor::Primary, FillColor::Primary]);
}

#[test]
fn fade_layout_render() {
    let back = fill_yard(FillColor::Background);
    let fore = fill_yard(FillColor::Primary);
    let yard = back.fade((1, 1), fore);
    let (max_x, max_y) = (3, 3);
    let mut ctx = LayoutContext::new(max_x, max_y);
    yard.layout(&mut ctx);
    let fills = cell_fills(&ctx, &[&yard.rear_yard, &yard.fore_yard], max_x, max_y);
    let fade_bounds = *ctx.hold().yard_bounds(yard.id);
    let inside = yard.render(&fade_bounds);
    let mut computed = Vec::new();
    for row in 0..max_y {
        for col in 0..max_x {
            let dark = fade_bounds.intersects(row, col) && !inside.intersects(row, col);
            computed.push((fills[(row * max_x + col) as usize], dark));
        }
    }
    assert_eq!(
        computed,
        vec![
            (BACKGROUND, true), (BACKGROUND, true), (BACKGROUND, true),
            (BACKGROUND, true), (PRIMARY, false), (BACKGROUND, true),
            (BACKGROUND, true), (BACKGROUND, true), (BACKGROUND, true),
        ]
    )
}

#[test]
fn glyph_layout_render() {
    let yard = glyph_yard('=', StrokeColor::Body);
    let (max_x, max_y) = (2, 1);
    let mut ctx = LayoutContext::new(max_x, max_y);
    yard.layout(&mut ctx);
    let bounds = *ctx.hold().yard_bounds(yard.id);
    assert_eq!(yard.render(&bounds), Some(2));
    assert_eq!((yard.glyph, yard.color), ('=', StrokeColor::Body));
}

#[test]
fn label_layout_render() {
    let yard = label_yard("Hi", StrokeColor::Body, Cling::Left);
    let (max_x, max_y) = (2, 1);
    let mut ctx = LayoutContext::new(max_x, max_y);
    yard.layout(&mut ctx);
    let bounds = *ctx.hold().yard_bounds(yard.id);
    let text_bounds = yard.render(&bounds);
    assert_eq!((text_bounds.left, text_bounds.top), (0, 0));
    assert_eq!(yard.string, vec!['H', 'i']);
    assert_eq!(yard.color, StrokeColor::Body);
}

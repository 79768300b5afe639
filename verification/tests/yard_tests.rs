use yui::bounds::{Bounds, Cling};
use yui::combine::{Before, Confine, Fade, Pack, Padding, Place};
use yui::focus::{Focus, FocusKeys, FocusType};
use yui::layout::{LayoutContext, MultiLayout, Yard};
use yui::link::SyncLink;
use yui::palette::{FillColor, Palette, StrokeColor};
use yui::screen::SpotStack;
use yui::yards::{empty_yard, fill_yard, glyph_yard, label_yard, RowYard, Split, YardOption};

fn region(left: i32, top: i32, right: i32, bottom: i32, z: i32) -> Bounds {
    Bounds { right, bottom, left, top, z }
}

#[test]
fn context_starts_with_the_screen() {
    let ctx = LayoutContext::new(6, 4);
    assert_eq!(ctx.edge_bounds(), (0, region(0, 0, 6, 4, 0)));
    assert_eq!(ctx.current_index(), 0);
    assert!(ctx.foci().is_empty());
    assert_eq!(ctx.focus_max(), i32::MAX);
}

#[test]
fn context_records_regions_and_foci() {
    let mut ctx = LayoutContext::new(6, 4);
    let index = ctx.push_bounds(&region(1, 1, 3, 3, -1));
    assert_eq!(index, 1);
    assert_eq!(ctx.bounds(1), region(1, 1, 3, 3, -1));
    ctx.set_yard_bounds(42, index);
    assert_eq!(*ctx.hold().yard_bounds(42), region(1, 1, 3, 3, -1));
    let focus = Focus {
        yard_id: 42,
        focus_type: FocusType::Submit,
        bounds: region(1, 1, 3, 3, -1),
        priority: 0,
        action_block: FocusKeys::Ignore,
    };
    ctx.add_focus(focus);
    assert_eq!(ctx.foci().clone(), vec![focus]);
    ctx.set_focus_max(-1);
    assert_eq!(ctx.focus_max(), -1);
    let hold = ctx.release_hold();
    assert_eq!(hold.bounds(0), region(0, 0, 6, 4, 0));
}

#[test]
fn plain_yards_occupy_their_edge() {
    let mut ctx = LayoutContext::new(5, 2);
    let fill = fill_yard(FillColor::Primary);
    assert_eq!(fill.layout(&mut ctx), 0);
    assert_eq!(*ctx.hold().yard_bounds(fill.id), region(0, 0, 5, 2, 0));
    let empty = empty_yard();
    assert_eq!(empty.layout(&mut ctx), 0);
    let glyph = glyph_yard('=', StrokeColor::Body);
    assert_eq!(glyph.layout(&mut ctx), 0);
    assert_eq!(glyph.id(), glyph.id);
    assert!(ctx.foci().is_empty());
}

#[test]
fn fill_takes_a_new_colour() {
    let mut fill = fill_yard(FillColor::Background);
    let id = fill.id;
    fill.update(YardOption::FillColor(FillColor::Primary));
    assert_eq!(fill.color, FillColor::Primary);
    assert_eq!(fill.id, id);
}

#[test]
fn glyph_repeats_across_its_row() {
    let glyph = glyph_yard('=', StrokeColor::Body);
    assert_eq!(glyph.render(&region(0, 0, 2, 1, 0)), Some(2));
    assert_eq!(glyph.render(&region(3, 0, 3, 1, 0)), None);
    assert_eq!(glyph_yard('\0', StrokeColor::Body).render(&region(0, 0, 2, 1, 0)), None);
}

#[test]
fn label_drops_control_characters_and_measures_columns() {
    let label = label_yard("a\tb\u{7}", StrokeColor::Body, Cling::Left);
    assert_eq!(label.string, vec!['a', 'b']);
    assert_eq!(label.string_width, 2);
    let wide = label_yard("日本", StrokeColor::Body, Cling::Left);
    assert_eq!(wide.string_width, 4);
}

#[test]
fn label_clings_within_its_region() {
    let label = label_yard("Hi", StrokeColor::Body, Cling::Left);
    assert_eq!(label.render(&region(0, 0, 2, 1, 0)), region(0, 0, 2, 1, 0));
    let centred = label_yard("ab", StrokeColor::Body, Cling::Center);
    assert_eq!(centred.render(&region(0, 0, 7, 3, 0)), region(2, 1, 7, 2, 0));
    let corner = label_yard("ab", StrokeColor::Body, Cling::RightBottom);
    assert_eq!(corner.render(&region(0, 0, 7, 3, 0)), region(5, 2, 7, 3, 0));
}

#[test]
fn split_divides_a_region() {
    let b = region(0, 0, 10, 5, 0);
    assert!(Split::Top(2).divides(&b));
    assert_eq!(Split::Top(2).divide(&b), (region(0, 0, 10, 2, 0), region(0, 2, 10, 5, 0)));
    assert_eq!(Split::Bottom(1).divide(&b), (region(0, 0, 10, 4, 0), region(0, 4, 10, 5, 0)));
    assert_eq!(Split::Right(4).divide(&b), (region(0, 0, 6, 5, 0), region(6, 0, 10, 5, 0)));
    assert!(!Split::Top(i32::MAX).divides(&region(0, 1, 10, 5, 0)));
}

#[test]
fn pack_bottom_gives_the_bottom_rows_to_the_second_yard() {
    let fill = fill_yard(FillColor::Primary);
    let fill_id = fill.id;
    let pack = empty_yard().pack_bottom(1, fill);
    assert_eq!(pack.divide, Split::Bottom(1));
    let mut ctx = LayoutContext::new(4, 3);
    let index = pack.layout(&mut ctx);
    assert_eq!(index, 0);
    assert_eq!(*ctx.hold().yard_bounds(fill_id), region(0, 2, 4, 3, 0));
}

#[test]
fn pack_top_gives_the_top_rows_to_the_packed_yard() {
    let top = fill_yard(FillColor::Primary);
    let top_id = top.id;
    let rest = fill_yard(FillColor::Background);
    let rest_id = rest.id;
    let pack = rest.pack_top(1, top);
    let mut ctx = LayoutContext::new(4, 3);
    pack.layout(&mut ctx);
    assert_eq!(*ctx.hold().yard_bounds(top_id), region(0, 0, 4, 1, 0));
    assert_eq!(*ctx.hold().yard_bounds(rest_id), region(0, 1, 4, 3, 0));
}

#[test]
fn before_puts_the_near_yard_one_layer_nearer() {
    let near = fill_yard(FillColor::Primary);
    let near_id = near.id;
    let far = fill_yard(FillColor::Background);
    let far_id = far.id;
    let before = near.before(far);
    let mut ctx = LayoutContext::new(2, 1);
    let index = before.layout(&mut ctx);
    assert_eq!(ctx.bounds(index), region(0, 0, 2, 1, -1));
    assert_eq!(*ctx.hold().yard_bounds(far_id), region(0, 0, 2, 1, 0));
    assert_eq!(*ctx.hold().yard_bounds(near_id), region(0, 0, 2, 1, -1));
}

#[test]
fn pad_shrinks_the_core_region() {
    let fill = fill_yard(FillColor::Primary);
    let fill_id = fill.id;
    let padded = fill.pad(1);
    assert_eq!((padded.left_cols, padded.right_cols, padded.top_rows, padded.bottom_rows), (2, 2, 1, 1));
    let mut ctx = LayoutContext::new(10, 5);
    assert_eq!(padded.layout(&mut ctx), 0);
    assert_eq!(*ctx.hold().yard_bounds(fill_id), region(2, 1, 8, 4, 0));
    let cols = fill_yard(FillColor::Primary).pad_cols(3);
    assert_eq!((cols.left_cols, cols.right_cols, cols.top_rows, cols.bottom_rows), (3, 3, 0, 0));
}

#[test]
fn confine_places_the_core() {
    let fill = fill_yard(FillColor::Primary);
    let fill_id = fill.id;
    let confined = fill.confine(4, 1, Cling::Center);
    let mut ctx = LayoutContext::new(10, 5);
    assert_eq!(confined.layout(&mut ctx), 0);
    assert_eq!(*ctx.hold().yard_bounds(fill_id), region(3, 2, 7, 3, 0));
    let top = fill_yard(FillColor::Primary);
    let top_id = top.id;
    let strip = top.confine_height(2, Cling::Top);
    assert_eq!(strip.width, None);
    let mut ctx = LayoutContext::new(10, 5);
    strip.layout(&mut ctx);
    assert_eq!(*ctx.hold().yard_bounds(top_id), region(0, 0, 10, 2, 0));
    let side = fill_yard(FillColor::Primary).confine_width(3, Cling::Right);
    assert_eq!(side.height, None);
}

#[test]
fn place_center_centres_the_core_across_the_region() {
    let fill = fill_yard(FillColor::Primary);
    let fill_id = fill.id;
    let placed = fill.place_center(4);
    let mut ctx = LayoutContext::new(10, 5);
    assert_eq!(placed.layout(&mut ctx), 0);
    assert_eq!(*ctx.hold().yard_bounds(fill_id), region(3, 0, 7, 5, 0));
}

#[test]
fn fade_insets_the_fore_yard_over_the_rear() {
    let back = fill_yard(FillColor::Background);
    let back_id = back.id;
    let fore = fill_yard(FillColor::Primary);
    let fore_id = fore.id;
    let fade = back.fade((1, 1), fore);
    let fade_id = fade.id;
    let mut ctx = LayoutContext::new(3, 3);
    let index = fade.layout(&mut ctx);
    assert_eq!(ctx.bounds(index), region(0, 0, 3, 3, -1));
    assert_eq!(*ctx.hold().yard_bounds(back_id), region(0, 0, 3, 3, 0));
    assert_eq!(*ctx.hold().yard_bounds(fore_id), region(1, 1, 2, 2, -1));
    assert_eq!(*ctx.hold().yard_bounds(fade_id), region(0, 0, 3, 3, -1));
    assert_eq!(ctx.focus_max(), -1);
}

#[test]
fn row_packs_yards_right_in_turn() {
    let a = fill_yard(FillColor::Primary);
    let a_id = a.id;
    let b = fill_yard(FillColor::Background);
    let b_id = b.id;
    let row = RowYard { id: 1, items: vec![(3, a), (2, b)] };
    let mut ctx = LayoutContext::new(10, 1);
    assert_eq!(row.layout(&mut ctx), 0);
    assert_eq!(*ctx.hold().yard_bounds(a_id), region(5, 0, 8, 1, 0));
    assert_eq!(*ctx.hold().yard_bounds(b_id), region(8, 0, 10, 1, 0));
}

#[test]
fn multi_layout_tracks_the_nearest_depth() {
    let mut ctx = LayoutContext::new(4, 4);
    let mut multi = MultiLayout::new(&ctx);
    assert_eq!(multi.near_z(), 0);
    let fill = fill_yard(FillColor::Primary);
    multi.layout(&mut ctx, &fill, &region(0, 0, 4, 4, -3));
    assert_eq!(multi.near_z(), -3);
    let index = multi.finish(&mut ctx);
    assert_eq!(ctx.bounds(index), region(0, 0, 4, 4, -3));
}

#[test]
fn multi_layout_catches_foci_when_trapping() {
    let mut ctx = LayoutContext::new(4, 4);
    let mut multi = MultiLayout::new(&ctx);
    multi.trap_foci(true);
    let button = yui::widgets::button_labelled(9, "OK", yui::button::ButtonState::enabled(SyncLink { channel: 3 }));
    multi.layout(&mut ctx, &button, &region(0, 0, 4, 1, 0));
    assert!(ctx.foci().is_empty());
    assert_eq!(
        multi.trapped_focus(),
        Some(Focus {
            yard_id: 9,
            focus_type: FocusType::Submit,
            bounds: region(0, 0, 4, 1, 0),
            priority: 0,
            action_block: FocusKeys::Touch,
        })
    );
    multi.finish(&mut ctx);
}

#[test]
fn trellis_stacks_strands_with_gaps() {
    let strands = vec![fill_yard(FillColor::Primary), fill_yard(FillColor::Primary), fill_yard(FillColor::Primary)];
    let ids: Vec<i32> = strands.iter().map(|s| s.id).collect();
    let yard = yui::yards::trellis(1, 1, Cling::Top, strands);
    let mut ctx = LayoutContext::new(5, 10);
    assert_eq!(yard.layout(&mut ctx), 0);
    assert_eq!(*ctx.hold().yard_bounds(ids[0]), region(0, 0, 5, 1, 0));
    assert_eq!(*ctx.hold().yard_bounds(ids[1]), region(0, 2, 5, 3, 0));
    assert_eq!(*ctx.hold().yard_bounds(ids[2]), region(0, 4, 5, 5, 0));
}

#[test]
fn title_underlines_its_text() {
    let yard = yui::widgets::title("Hi", StrokeColor::Body, Cling::Left);
    let label_id = yard.yard.first_yard.id;
    let underline_id = yard.yard.second_yard.yard.id;
    assert_eq!(yard.yard.second_yard.yard.glyph, '=');
    let mut ctx = LayoutContext::new(10, 5);
    assert_eq!(yard.layout(&mut ctx), 0);
    assert_eq!(*ctx.hold().yard_bounds(label_id), region(0, 0, 10, 1, 0));
    assert_eq!(*ctx.hold().yard_bounds(underline_id), region(0, 1, 2, 2, 0));
}

#[test]
fn spot_shows_the_nearest_drawing() {
    let mut spot = SpotStack::new();
    assert_eq!((spot.fill_color, spot.fill_z, spot.stroke_z), (FillColor::Background, i32::MAX, i32::MAX));
    spot.set_fill(FillColor::Primary, 0);
    spot.set_fill(FillColor::Background, 3);
    assert_eq!((spot.fill_color, spot.fill_z), (FillColor::Primary, 0));
    spot.set_stroke('x', StrokeColor::Comment, 1);
    let mut palette = Palette::new();
    let (pair, glyph) = spot.color_pair_index_and_glyph(&mut palette);
    assert_eq!((pair.index, pair.fresh, glyph), (1, true, ' '));
    spot.set_stroke('y', StrokeColor::Comment, -1);
    let (pair, glyph) = spot.color_pair_index_and_glyph(&mut palette);
    assert_eq!((pair.index, pair.fresh, glyph), (2, true, 'y'));
    let (pair, _) = spot.color_pair_index_and_glyph(&mut palette);
    assert_eq!((pair.index, pair.fresh), (2, false));
    spot.set_stroke('z', StrokeColor::Comment, 5);
    assert_eq!(spot.stroke, Some(('y', StrokeColor::Comment)));
}

#[test]
fn columns_pack_left_in_order() {
    let a = fill_yard(FillColor::Primary);
    let a_id = a.id;
    let b = fill_yard(FillColor::Background);
    let b_id = b.id;
    let columns = yui::yards::ColumnsYard { id: 1, items: vec![(3, a), (2, b)] };
    let mut ctx = LayoutContext::new(10, 1);
    assert_eq!(columns.layout(&mut ctx), 0);
    assert_eq!(*ctx.hold().yard_bounds(a_id), region(0, 0, 3, 1, 0));
    assert_eq!(*ctx.hold().yard_bounds(b_id), region(3, 0, 5, 1, 0));
}

#[test]
fn pack_left_gives_the_left_columns_to_the_packed_yard() {
    let left = fill_yard(FillColor::Primary);
    let left_id = left.id;
    let rest = fill_yard(FillColor::Background);
    let rest_id = rest.id;
    let pack = rest.pack_left(4, left);
    assert_eq!(pack.divide, Split::Left(4));
    let mut ctx = LayoutContext::new(10, 2);
    pack.layout(&mut ctx);
    assert_eq!(*ctx.hold().yard_bounds(left_id), region(0, 0, 4, 2, 0));
    assert_eq!(*ctx.hold().yard_bounds(rest_id), region(4, 0, 10, 2, 0));
    assert_eq!(Split::Left(20).divide(&region(0, 0, 10, 2, 0)), (region(0, 0, 10, 2, 0), region(10, 0, 10, 2, 0)));
}

#[test]
fn grade_occupies_its_edge() {
    let shade = yui::yards::grade(yui::palette::FillGrade::Focus);
    let mut ctx = LayoutContext::new(3, 3);
    assert_eq!(shade.layout(&mut ctx), 0);
    assert_eq!(*ctx.hold().yard_bounds(shade.id), region(0, 0, 3, 3, 0));
}

#[test]
fn drawing_order_does_not_matter_across_depths() {
    let mut first = SpotStack::new();
    first.set_fill(FillColor::Primary, -1);
    first.set_fill(FillColor::BackgroundWithFocus, 2);
    first.set_stroke('a', StrokeColor::Body, 0);
    first.set_stroke('b', StrokeColor::Comment, -3);
    let mut second = SpotStack::new();
    second.set_stroke('b', StrokeColor::Comment, -3);
    second.set_fill(FillColor::BackgroundWithFocus, 2);
    second.set_stroke('a', StrokeColor::Body, 0);
    second.set_fill(FillColor::Primary, -1);
    assert_eq!((first.fill_color, first.fill_z), (second.fill_color, second.fill_z));
    assert_eq!((first.stroke, first.stroke_z), (second.stroke, second.stroke_z));
    assert_eq!(first.shown(), ('b', StrokeColor::Comment, FillColor::Primary));
}

#[test]
fn a_yard_paints_once_laid_out() {
    let label = label_yard("hey", StrokeColor::Body, Cling::Center);
    let fresh = LayoutContext::new(5, 1);
    assert!(!label.paints_ok(fresh.hold(), 0));
    let mut ctx = LayoutContext::new(5, 1);
    label.layout(&mut ctx);
    assert!(label.paints_ok(ctx.hold(), 0));
    let cells = yui::paint::paint(&label, ctx.hold(), 0, 5, 1);
    let glyphs: Vec<char> = cells[0].iter().map(|spot| spot.stroke.map(|(g, _)| g).unwrap_or(' ')).collect();
    assert_eq!(glyphs, vec![' ', 'h', 'e', 'y', ' ']);
}

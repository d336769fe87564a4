use pelican_ui::constraint::{Area, SizeRequest, DIM_MAX};
use pelican_ui::custom::CustomRule;
use pelican_ui::linear::{Axis, Linear};
use pelican_ui::overlay::{DefaultStack, Offset, Padding, Size, Stack};
use pelican_ui::scroll::{ScrollAnchor, ScrollRegion};
use pelican_ui::wrap::WrapFlow;

fn hug(w: u32, h: u32) -> SizeRequest {
    SizeRequest::fixed((w, h))
}

#[test]
fn get_clamps_into_range() {
    let c = SizeRequest::new(10, 10, 50, 50);
    assert_eq!(c.get((100, 5)), (50, 10));
    assert_eq!(c.get((30, 30)), (30, 30));
    assert_eq!(c.get((0, 70)), (10, 50));
}

#[test]
fn get_is_idempotent() {
    let samples = [(0u32, 0u32), (5, 100), (37, 37), (DIM_MAX, 1), (100, 0)];
    let c = SizeRequest::new(10, 20, 60, 40);
    for s in samples {
        let once = c.get(s);
        assert_eq!(c.get(once), once);
    }
}

#[test]
fn request_arithmetic_saturates() {
    let c = SizeRequest::fill();
    let wider = c.add_width(100);
    assert_eq!(wider.max_width(), DIM_MAX);
    assert_eq!(wider.min_width(), 100);
    let both = c.add(3, 4);
    assert_eq!(both.min_width(), 3);
    assert_eq!(both.min_height(), 4);
}

#[test]
fn componentwise_max_of_requests() {
    let a = SizeRequest::new(10, 5, 30, 40);
    let b = SizeRequest::new(7, 9, 50, 20);
    let m = a.max(&b);
    assert_eq!(m, SizeRequest::new(10, 9, 50, 40));
}

#[test]
fn default_stack_hugs_largest_child() {
    let stack = DefaultStack;
    let kids = vec![hug(30, 10), hug(20, 25)];
    let r = stack.request_size(&kids);
    assert_eq!(r, SizeRequest::new(30, 25, 30, 25));
    let areas = stack.build((100, 100), &kids);
    assert_eq!(areas.len(), 2);
    assert_eq!(areas[0], Area { offset: (0, 0), size: (30, 10) });
    assert_eq!(areas[1], Area { offset: (0, 0), size: (20, 25) });
}

#[test]
fn overlay_alignment_places_each_child() {
    let stack = Stack(
        Offset::Center,
        Offset::End,
        Size::Fit,
        Size::Fit,
        Padding(0, 0, 0, 0),
    );
    let kids = vec![hug(20, 10)];
    let areas = stack.build((100, 50), &kids);
    assert_eq!(areas[0], Area { offset: (40, 40), size: (20, 10) });
}

#[test]
fn overlay_static_offset_is_pulled_inside() {
    let stack = Stack(
        Offset::Static(95),
        Offset::Static(5),
        Size::Fit,
        Size::Fit,
        Padding(0, 0, 0, 0),
    );
    let kids = vec![hug(20, 10)];
    let areas = stack.build((100, 50), &kids);
    assert_eq!(areas[0], Area { offset: (80, 5), size: (20, 10) });
}

#[test]
fn custom_rule_at_least_lifts_bounds() {
    let pairs = vec![(10u32, 30u32), (5, 60)];
    assert_eq!(CustomRule::MatchChild(1).apply(&pairs), (5, 60));
    assert_eq!(CustomRule::AtLeast(0, 48).apply(&pairs), (48, 48));
    assert_eq!(CustomRule::CapAt(1, 40).apply(&pairs), (5, 40));
    assert_eq!(CustomRule::Expand(0).apply(&pairs), (10, DIM_MAX));
}

#[test]
fn row_splits_remaining_space_between_fill_children() {
    // Two fill children and one hugged child of 50, spacing 10, padding 0,
    // granted width 310: the hug keeps 50, spacing takes 20, and the
    // remaining 240 splits 120 and 120.
    let row = Linear::row(10, Offset::Start, Size::Fit, Padding::none());
    let kids = vec![SizeRequest::fill(), hug(50, 40), SizeRequest::fill()];
    let areas = row.build((310, 40), &kids);
    assert_eq!(areas[0].size.0, 120);
    assert_eq!(areas[1].size.0, 50);
    assert_eq!(areas[2].size.0, 120);
    assert_eq!(areas[0].offset.0, 0);
    assert_eq!(areas[1].offset.0, 130);
    assert_eq!(areas[2].offset.0, 190);
    assert_eq!(areas[2].offset.0 + areas[2].size.0, 310);
}

#[test]
fn row_rounding_spreads_over_leading_fills() {
    // Remaining 241 over two fills: 121 for the first, 120 for the second.
    let row = Linear::row(10, Offset::Start, Size::Fit, Padding::none());
    let kids = vec![SizeRequest::fill(), hug(50, 40), SizeRequest::fill()];
    let areas = row.build((311, 40), &kids);
    assert_eq!(areas[0].size.0, 121);
    assert_eq!(areas[2].size.0, 120);
}

#[test]
fn hug_only_row_consumes_exactly_its_request() {
    let row = Linear::row(5, Offset::Start, Size::Fit, Padding(3, 0, 4, 0));
    let kids = vec![hug(30, 10), hug(20, 10), hug(10, 10)];
    let r = row.request_size(&kids);
    // 30 + 20 + 10 children, 2 gaps of 5, padding 3 + 4.
    assert_eq!(r.max_width(), 77);
    assert_eq!(r.min_width(), 77);
    let areas = row.build((77, 10), &kids);
    assert_eq!(areas[0], Area { offset: (3, 0), size: (30, 10) });
    assert_eq!(areas[1], Area { offset: (38, 0), size: (20, 10) });
    assert_eq!(areas[2], Area { offset: (63, 0), size: (10, 10) });
    let sum: u32 = areas.iter().map(|a| a.size.0).sum();
    assert_eq!(sum + 2 * 5 + 3 + 4, 77);
}

#[test]
fn column_lays_out_vertically() {
    let col = Linear::column(2, Offset::Start, Size::Fit, Padding::none());
    let kids = vec![hug(10, 30), hug(10, 20)];
    let areas = col.build((10, 52), &kids);
    assert_eq!(areas[0].offset, (0, 0));
    assert_eq!(areas[0].size, (10, 30));
    assert_eq!(areas[1].offset, (0, 32));
    assert_eq!(areas[1].size, (10, 20));
}

#[test]
fn wrap_flow_breaks_lines_at_the_allotted_width() {
    let flow = WrapFlow::new(10, 10);
    let kids = vec![hug(50, 20), hug(50, 20), hug(50, 20)];
    let areas = flow.build((120, 100), &kids);
    assert_eq!(areas[0], Area { offset: (0, 0), size: (50, 20) });
    assert_eq!(areas[1], Area { offset: (60, 0), size: (50, 20) });
    assert_eq!(areas[2], Area { offset: (0, 30), size: (50, 20) });
}

#[test]
fn scroll_offset_stays_in_range() {
    let mut region = ScrollRegion::new(
        Axis::Vertical,
        Offset::Start,
        Padding(0, 0, 0, 0),
        ScrollAnchor::Start,
    );
    let kids = vec![hug(100, 500)];
    let _ = region.build((100, 200), &kids);
    assert_eq!(region.content, 500);
    assert_eq!(region.viewport, 200);
    region.set_scroll(1000);
    assert_eq!(region.offset, 300);
    region.set_scroll(1000);
    assert_eq!(region.offset, 300);
    region.set_scroll(50);
    assert_eq!(region.offset, 50);
    region.adjust_scroll(-60);
    assert_eq!(region.offset, 0);
    region.adjust_scroll(10_000);
    assert_eq!(region.offset, 300);
}

#[test]
fn scroll_anchor_end_starts_at_the_bottom() {
    let mut region = ScrollRegion::new(
        Axis::Vertical,
        Offset::Start,
        Padding(0, 0, 0, 0),
        ScrollAnchor::End,
    );
    let kids = vec![hug(100, 500)];
    let areas = region.build((100, 200), &kids);
    assert_eq!(region.offset, 300);
    // The visible window clips to the viewport.
    assert_eq!(areas[0].size, (100, 200));
}

use tui_lipan::element::Element;
use tui_lipan::file_tree::StyleSlot;
use tui_lipan::frame::{
    measure_frame, measure_frame_chrome, BorderLabels, DecorationGlyph, DecorationPlacement, EdgeDecoration, Frame,
    FrameLabel, FrameNode,
};
use tui_lipan::style::{BorderEdges, Color, Edge, Length, Padding, Rect, Style};

#[test]
fn grouped_frame_builder_stores_all_positions_and_styles() {
    let header_style = Style::new().fg(Color::Cyan);
    let focused_header_style = Style::new().bold();
    let left_style = Style::new().fg(Color::Yellow);
    let focused_left_style = Style::new().underlined();
    let frame = Frame::new().header(
        BorderLabels::new()
            .left(FrameLabel::new("left").style(left_style).focused_style(focused_left_style))
            .center(FrameLabel::new("center"))
            .right(FrameLabel::new("right"))
            .style(header_style)
            .focused_style(focused_header_style)
            .padding(Padding::all(1)),
    );

    let header = &frame.props.header;
    assert_eq!(header.left.as_ref().and_then(|label| label.style), Some(left_style));
    assert_eq!(header.left.as_ref().and_then(|label| label.focused_style), Some(focused_left_style));
    assert_eq!(header.center.as_ref().map(|label| label.content.clone()), Some("center".to_string()));
    assert_eq!(header.right.as_ref().map(|label| label.content.clone()), Some("right".to_string()));
    assert_eq!(header.style, header_style);
    assert_eq!(header.focused_style, Some(focused_header_style));
    assert_eq!(header.padding, Padding::all(1));
}

#[test]
fn repeated_group_setters_replace_the_previous_group() {
    let frame = Frame::new()
        .header(BorderLabels::new().left(FrameLabel::new("old")).right(FrameLabel::new("removed")))
        .footer(BorderLabels::new().center(FrameLabel::new("old footer")))
        .header(BorderLabels::new().center(FrameLabel::new("new")))
        .footer(BorderLabels::new().right(FrameLabel::new("new footer")));

    assert!(frame.props.header.left.is_none());
    assert_eq!(frame.props.header.center.as_ref().map(|label| label.content.clone()), Some("new".to_string()));
    assert!(frame.props.footer.center.is_none());
    assert_eq!(
        frame.props.footer.right.as_ref().map(|label| label.content.clone()),
        Some("new footer".to_string())
    );
}

#[test]
fn label_width_uses_display_width_and_padding() {
    let labels = BorderLabels::new().left(FrameLabel::new("界")).padding(Padding::all(1));

    assert_eq!(labels.min_width(), 4);
}

#[test]
fn non_focusable_frame_focus_chrome_is_hit_testable_on_border() {
    let mut frame = FrameNode { focusable: false, focus_min_height: Some(4), ..FrameNode::default() };
    frame.overrides_mut().focus_style = Some(StyleSlot::Replace(Style::new().fg(Color::LightCyan)));

    let rect = Rect { x: 2, y: 3, w: 10, h: 4 };

    assert_eq!(frame.hit_test_refinement(4, 3, rect), Some(true));
    assert_eq!(frame.hit_test_refinement(2, 5, rect), Some(true));
    assert_eq!(frame.hit_test_refinement(4, 5, rect), None);
}

#[test]
fn inherited_frame_hover_slot_is_hoverable_even_before_theme_resolution() {
    let mut frame = FrameNode::default();
    frame.overrides_mut().hover_style = Some(StyleSlot::Inherit);

    assert!(frame.is_hoverable_for_theme(false));
}

#[test]
fn frame_px_size_is_outer_size_with_border_and_padding() {
    let frame = Frame::new()
        .border(true)
        .padding(Padding::symmetric(1, 2))
        .width(Length::Px(20))
        .height(Length::Px(6))
        .child(Element::sized(7, 1));

    let geometry = measure_frame(&frame, None, None);
    assert_eq!(geometry.outer_size(), (20, 6));
}

#[test]
fn horizontal_caps_border_does_not_consume_content_columns() {
    let frame = Frame::new()
        .border(true)
        .border_edges(BorderEdges::HorizontalCaps)
        .width(Length::Px(20))
        .height(Length::Px(5))
        .child(Element::sized(7, 1));

    let geometry = measure_frame(&frame, None, None);
    assert_eq!(geometry.content_rect.x, 0);
    assert_eq!(geometry.content_rect.w, 20);
    assert_eq!(geometry.content_rect.y, 1);
    assert_eq!(geometry.content_rect.h, 3);
}

#[test]
fn frame_px_size_matches_for_border_and_no_border() {
    let with_border = Frame::new()
        .border(true)
        .padding(Padding::symmetric(1, 1))
        .width(Length::Px(18))
        .height(Length::Px(5))
        .child(Element::sized(1, 1));
    let without_border = Frame::new()
        .border(false)
        .padding(Padding::symmetric(1, 1))
        .width(Length::Px(18))
        .height(Length::Px(5))
        .child(Element::sized(1, 1));

    assert_eq!(measure_frame(&with_border, None, None).outer_size(), (18, 5));
    assert_eq!(measure_frame(&without_border, None, None).outer_size(), (18, 5));
}

#[test]
fn frame_borderless_border_decoration_adds_horizontal_measurement() {
    let frame = Frame::new()
        .border(false)
        .decorations(vec![EdgeDecoration::new(Edge::Left).glyph(DecorationGlyph::AutoBlock)])
        .child(Element::sized(2, 1));

    let geometry = measure_frame(&frame, None, None);
    assert_eq!(geometry.outer_size(), (3, 1));
}

#[test]
fn outside_decorations_grow_the_frame_and_chrome() {
    let frame = Frame::new()
        .border(true)
        .decoration(EdgeDecoration::new(Edge::Top).placement(DecorationPlacement::Outside).thickness(2))
        .child(Element::sized(4, 2));
    let geometry = measure_frame(&frame, None, None);
    assert_eq!(geometry.outer_size(), (6, 6));
    assert_eq!(geometry.frame_rect, Rect { x: 0, y: 2, w: 6, h: 4 });
    assert_eq!(geometry.content_rect, Rect { x: 1, y: 3, w: 4, h: 2 });
    assert_eq!(measure_frame_chrome(&frame), (2, 5));
}

#[test]
fn decoration_glyphs_follow_the_edge() {
    assert_eq!(DecorationGlyph::AutoThin.resolve(Edge::Left), '\u{2502}');
    assert_eq!(DecorationGlyph::AutoThin.resolve(Edge::Top), '\u{2500}');
    assert_eq!(DecorationGlyph::HalfBlock.resolve(Edge::Right), '\u{2590}');
    assert_eq!(DecorationGlyph::Custom('x').resolve(Edge::Bottom), 'x');
    assert_eq!(EdgeDecoration::new(Edge::Left).thickness(0).thickness, 1);
}

#[test]
fn titles_widen_a_bordered_frame() {
    let frame = Frame::new()
        .border(true)
        .width(Length::Auto)
        .tab_titles(vec!["one".to_string(), "two".to_string()])
        .child(Element::sized(1, 1));
    // Tabs: 3 + 2 padding, separator, 3 + 2 padding, two corners: 13;
    // then the border's side columns.
    let (w, h) = measure_frame(&frame, None, None).outer_size();
    assert_eq!((w, h), (13 + 2, 3));
    let flexible = frame.clone().width(Length::Flex(1));
    assert_eq!(flexible.min_size().0, 0);
}

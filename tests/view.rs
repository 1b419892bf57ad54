use thesurfin::border::{border, INTERIOR_VIEWPORT_WIDTH, VIEWPORT_WIDTH};
use thesurfin::day::compass_to_arrow;
use thesurfin::graph::boundary_glyph_str;
use thesurfin::{
    render, Border, Browser, Charts, Color, CompassDirection, Condition, Content, Day, Forecast, Graph,
    LocalTime, RenderError, Span, Spots, Style, Swell, SwellComponent, SwellComponents, Terminal,
    UnitLength, UnitSpeed, UnitTemperature, View, Wind,
};

/// 2022-02-24 00:00, a Thursday.
const MIDNIGHT: i64 = 1645660800;

fn component(height: u32, period: u16, direction: u32, dir: CompassDirection) -> SwellComponent {
    SwellComponent {
        height,
        period,
        direction,
        compass_direction: dir,
    }
}

fn record(local: i64, max_height: u32, abs_max_height: u32, solid: u8, faded: u8) -> Forecast {
    Forecast {
        timestamp: local + 18000,
        local_timestamp: LocalTime::from_timestamp(local).unwrap(),
        faded_rating: faded,
        solid_rating: solid,
        swell: Swell {
            min_breaking_height: 200,
            abs_min_breaking_height: 223,
            max_breaking_height: max_height,
            abs_max_breaking_height: abs_max_height,
            unit: UnitLength::Feet,
            components: SwellComponents {
                combined: None,
                primary: None,
                secondary: None,
                tertiary: None,
            },
        },
        wind: Wind {
            speed: 7,
            direction: 33500,
            compass_direction: CompassDirection::SSE,
            chill: 21,
            gusts: 12,
            unit: UnitSpeed::Mph,
        },
        condition: Condition {
            pressure: 1023,
            temperature: 20,
            unit_pressure: "mb".to_string(),
            unit_temperature: UnitTemperature::C,
        },
        charts: Charts {
            swell: None,
            period: None,
            wind: None,
            pressure: None,
            sst: None,
        },
    }
}

/// Eight records, three hours apart, from midnight of one day.
fn one_day() -> Vec<Forecast> {
    (0..8)
        .map(|i| record(MIDNIGHT + i * 10800, 300, 348, 1, 1))
        .collect()
}

fn text(span: &Span) -> String {
    match &span.content {
        Content::Text(t) => t.clone(),
        Content::Newline => "\n".to_string(),
    }
}

fn line_text(line: &[Span]) -> String {
    line.iter().map(text).collect()
}

fn cells(s: &str) -> usize {
    s.chars().count()
}

#[test]
fn view_test_span_api() {
    let mut span = Span::new("hi");
    span.style().fg(Color::Blue).bg(Color::Red);
    assert_eq!(
        span,
        Span {
            content: Content::Text("hi".to_string()),
            style: Style {
                fg: Some(Color::Blue),
                bg: Some(Color::Red),
                ..Style::default()
            }
        }
    );
}

#[test]
fn base_test_span_api() {
    let mut span = Span::new("hi");
    span.style().fg(Color::Blue).bg(Color::Red);
    assert_eq!(
        span,
        Span {
            content: Content::Text("hi".to_string()),
            style: Style {
                fg: Some(Color::Blue),
                bg: Some(Color::Red),
                ..Style::default()
            }
        }
    );
}

#[test]
fn bold_and_newline_spans() {
    let mut span = Span::new("x");
    span.style().bold();
    assert!(span.style.bold);
    assert_eq!(span.style.fg, None);
    assert_eq!(Span::newline().content, Content::Newline);
}

#[test]
fn single_record_graph_is_red_with_four_foot_legend() {
    let fs = vec![record(MIDNIGHT, 300, 300, 0, 1)];
    let graph = Graph::new(&fs).unwrap();
    assert_eq!(graph.max_swell_height, 400);
    let lines = graph.draw_inner();
    assert_eq!(lines.len(), 10);
    assert_eq!(text(&lines[0][0]), " 4 ft ");
    assert_eq!(text(&lines[9][0]), " 0 ft ");
    for line in &lines[1..9] {
        assert_eq!(text(&line[0]), "      ");
    }
    // legend, one bin, margin
    for line in &lines {
        assert_eq!(line.len(), 3);
        assert_eq!(line[1].style.fg, Some(Color::Red));
    }
    // 3.0 of 4.0 is row 7.5, rounded to 8 rows up: the wave line is on row 2.
    assert!(text(&lines[2][1]).chars().all(|c| c == '─'));
    assert!(text(&lines[1][1]).chars().all(|c| c == ' '));
    assert!(text(&lines[3][1]).chars().all(|c| c == '.'));
}

#[test]
fn meters_graph_has_half_unit_headroom() {
    let mut fs = vec![record(MIDNIGHT, 120, 124, 1, 1)];
    fs[0].swell.unit = UnitLength::Meters;
    let graph = Graph::new(&fs).unwrap();
    assert_eq!(graph.max_swell_height, 170);
    let lines = graph.draw_inner();
    assert_eq!(text(&lines[0][0]), " 1.7 m ");
    assert_eq!(text(&lines[9][0]), "   0 m ");
    assert_eq!(lines[0][1].style.fg, Some(Color::Blue));
}

#[test]
fn graph_interior_lines_fill_the_interior() {
    let mut fs = one_day();
    fs.extend((8..40).map(|i| record(MIDNIGHT + i * 10800, 100 + (i as u32 % 7) * 100, 150 + (i as u32 % 5) * 120, (i % 3) as u8, (i % 2) as u8)));
    let graph = Graph::new(&fs).unwrap();
    for line in graph.draw_inner() {
        assert_eq!(cells(&line_text(&line)), INTERIOR_VIEWPORT_WIDTH);
        assert!(line.iter().all(|s| s.content != Content::Newline));
    }
}

#[test]
fn graph_boundaries_follow_the_step() {
    // Heights 1 ft then 4 ft of a 5 ft chart: rows 8 and 2 from the top.
    let fs = vec![record(MIDNIGHT, 400, 100, 1, 0), record(MIDNIGHT + 10800, 400, 400, 1, 1)];
    let graph = Graph::new(&fs).unwrap();
    let lines = graph.draw_inner();
    // legend, bin, boundary, bin, margin
    assert_eq!(lines[0].len(), 5);
    assert_eq!(text(&lines[2][2]), "┌");
    assert_eq!(text(&lines[5][2]), "│");
    assert_eq!(text(&lines[8][2]), "┘");
    assert_eq!(text(&lines[9][2]), ".");
    assert_eq!(text(&lines[1][2]), " ");
    assert_eq!(lines[2][2].style.fg, Some(Color::Blue));
    assert_eq!(lines[8][1].style.fg, Some(Color::Green));
}

#[test]
fn graph_title_spans_first_to_last_day() {
    let fs = vec![record(MIDNIGHT + 86400, 300, 300, 1, 1), record(MIDNIGHT, 300, 300, 1, 1)];
    let graph = Graph::new(&fs).unwrap();
    assert_eq!(graph.title(), "Thu Feb 24 – Fri Feb 25");
}

#[test]
fn boundary_glyphs_cover_every_ordering() {
    let mut seen = 0;
    for right in 0..3usize {
        for left in 0..3usize {
            for y in 0..3usize {
                let g = boundary_glyph_str(right, left, y);
                let swapped = boundary_glyph_str(left, right, y);
                let mirror = match g {
                    "└" => "┘",
                    "┘" => "└",
                    "┌" => "┐",
                    "┐" => "┌",
                    other => other,
                };
                assert_eq!(swapped, mirror);
                seen += 1;
            }
        }
    }
    assert_eq!(seen, 27);
    assert_eq!(boundary_glyph_str(2, 0, 2), "└");
    assert_eq!(boundary_glyph_str(0, 2, 0), "┌");
    assert_eq!(boundary_glyph_str(2, 0, 0), "┐");
    assert_eq!(boundary_glyph_str(0, 2, 2), "┘");
    assert_eq!(boundary_glyph_str(1, 1, 1), "─");
    assert_eq!(boundary_glyph_str(0, 2, 1), "│");
    assert_eq!(boundary_glyph_str(2, 2, 1), " ");
    assert_eq!(boundary_glyph_str(0, 0, 1), ".");
}

#[test]
fn day_without_swell_trains_shows_time_wind_and_air() {
    let fs = one_day();
    let day = Day::new(&fs).unwrap();
    assert_eq!(day.bin_width, 8);
    assert_eq!(day.right_margin, 5);
    assert!(!day.is_primary_present());
    assert!(!day.is_secondary_present());
    let lines = day.draw_inner();
    let texts: Vec<String> = lines.iter().map(|l| line_text(l)).collect();
    assert_eq!(lines.len(), 7);
    assert!(texts[0].starts_with("   Time    "));
    assert!(texts[0].contains("  12am  "));
    assert!(texts[0].contains("  9pm   "));
    assert_eq!(texts[1].trim(), "");
    assert_eq!(texts[2].trim(), "");
    assert!(texts[3].contains(" 7 mph  "));
    assert!(texts[4].starts_with("    Wind   "));
    assert!(texts[4].contains("↖ 335°"));
    assert_eq!(texts[5].trim(), "");
    assert!(texts[6].starts_with("    Air    "));
    assert!(texts[6].contains(" 20 °C  "));
    for t in &texts {
        assert!(!t.contains("Swell"));
        assert_eq!(cells(t), INTERIOR_VIEWPORT_WIDTH);
    }
}

#[test]
fn day_with_primary_swell_shows_its_rows() {
    let mut fs = one_day();
    fs[0].swell.components.primary = Some(component(348, 10, 27153, CompassDirection::E));
    let day = Day::new(&fs).unwrap();
    assert!(day.is_primary_present());
    let lines = day.draw_inner();
    let texts: Vec<String> = lines.iter().map(|l| line_text(l)).collect();
    assert_eq!(lines.len(), 10);
    assert!(texts[2].contains(" 3.5 ft "));
    assert!(texts[3].starts_with("  Primary  "));
    assert!(texts[3].contains("  10s   "));
    assert!(texts[4].starts_with("   Swell   "));
    assert!(texts[4].contains(" ← 272° "));
    for t in &texts {
        assert_eq!(cells(t), INTERIOR_VIEWPORT_WIDTH);
    }
}

#[test]
fn day_with_secondary_swell_adds_a_group() {
    let mut fs = one_day();
    fs[3].swell.components.secondary = Some(component(120, 7, 4500, CompassDirection::NE));
    fs[3].condition.temperature = -3;
    let day = Day::new(&fs).unwrap();
    let lines = day.draw_inner();
    let texts: Vec<String> = lines.iter().map(|l| line_text(l)).collect();
    assert_eq!(lines.len(), 11);
    assert!(texts[4].starts_with(" Secondary "));
    assert!(texts[3].contains(" 1.2 ft "));
    assert!(texts[5].contains(" ↙ 45°  "));
    assert!(texts[10].contains(" -3 °C  "));
}

#[test]
fn day_title_is_its_first_date() {
    let fs = one_day();
    assert_eq!(Day::new(&fs).unwrap().title(), "Thu Feb 24");
}

#[test]
fn empty_input_is_an_error() {
    let none: Vec<Forecast> = Vec::new();
    assert_eq!(Graph::new(&none).err(), Some(RenderError::EmptyInput));
    assert_eq!(Day::new(&none).err(), Some(RenderError::EmptyInput));
    assert_eq!(View::draw(none).err(), Some(RenderError::EmptyInput));
}

#[test]
fn too_many_columns_is_an_invariant_violation() {
    let fs: Vec<Forecast> = (0..78).map(|i| record(MIDNIGHT + i * 60, 300, 300, 1, 1)).collect();
    assert_eq!(Day::new(&fs).err(), Some(RenderError::InvariantViolation));
    assert!(Day::new(&fs[..77]).is_ok());
    assert_eq!(View::draw(fs).err(), Some(RenderError::InvariantViolation));
    let wide: Vec<Forecast> = (0..84).map(|i| record(MIDNIGHT + i * 10800, 300, 300, 1, 1)).collect();
    assert_eq!(Graph::new(&wide).err(), Some(RenderError::InvariantViolation));
}

#[test]
fn border_frames_the_title_at_full_width() {
    let spans = border("Thu Feb 24", vec![vec![Span::new(&" ".repeat(INTERIOR_VIEWPORT_WIDTH))]]).unwrap();
    let text_of: Vec<String> = spans.iter().map(text).collect();
    assert_eq!(text_of[1], "\n");
    for i in [0, 2, 4] {
        assert_eq!(cells(&text_of[i]), VIEWPORT_WIDTH);
    }
    assert_eq!(text_of[0].trim(), "┌────────────┐");
    assert!(text_of[2].contains("┤ Thu Feb 24 ├"));
    assert!(text_of[2].starts_with("┌─"));
    assert_eq!(text_of[4], format!("│{}└{}┘{}│", " ".repeat(37), "─".repeat(12), " ".repeat(37)));
    let last = text_of.last().unwrap();
    assert_eq!(cells(last), VIEWPORT_WIDTH);
    assert!(last.starts_with('└') && last.ends_with('┘'));
}

#[test]
fn border_joins_lines_with_walls() {
    let spans = border("t", vec![vec![Span::new("a")], vec![Span::new("b")]]).unwrap();
    let text_of: Vec<String> = spans.iter().map(text).collect();
    assert_eq!(&text_of[5..13], &["\n", "│", "a", "│", "\n", "│", "b", "│"]);
    assert_eq!(text_of.len(), 15);
}

#[test]
fn border_refuses_a_title_wider_than_the_box() {
    let title = "x".repeat(85);
    assert_eq!(border(&title, vec![]).err(), Some(RenderError::InvariantViolation));
    assert!(border(&"x".repeat(84), vec![]).is_ok());
}

#[test]
fn view_cuts_days_after_nine_pm() {
    let mut fs = one_day();
    fs.extend((8..11).map(|i| record(MIDNIGHT + i * 10800, 300, 348, 1, 1)));
    let view = View::draw(fs).unwrap();
    let out = render::<Terminal>(view);
    assert_eq!(out.matches("Thu Feb 24").count(), 2);
    assert_eq!(out.matches("Fri Feb 25").count(), 2);
    assert!(out.contains("Thu Feb 24 – Fri Feb 25"));
    for line in out.lines() {
        let plain: String = strip_ansi(line);
        assert_eq!(cells(&plain), VIEWPORT_WIDTH, "{plain}");
    }
}

fn strip_ansi(s: &str) -> String {
    let mut out = String::new();
    let mut chars = s.chars();
    while let Some(c) = chars.next() {
        if c == '\u{1b}' {
            for d in chars.by_ref() {
                if d == 'm' {
                    break;
                }
            }
        } else {
            out.push(c);
        }
    }
    out
}

#[test]
fn rendering_is_deterministic() {
    let a = render::<Terminal>(View::draw(one_day()).unwrap());
    let b = render::<Terminal>(View::draw(one_day()).unwrap());
    assert_eq!(a, b);
    let c = render::<Browser>(View::draw(one_day()).unwrap());
    let d = render::<Browser>(View::draw(one_day()).unwrap());
    assert_eq!(c, d);
}

#[test]
fn terminal_colors_and_resets() {
    let mut red = Span::new("a");
    red.style().fg(Color::Red);
    let mut green = Span::new("b");
    green.style().fg(Color::Green);
    let mut blue = Span::new("c");
    blue.style().fg(Color::Blue);
    let view = View {
        spans: vec![red, Span::newline(), green, blue, Span::new("d")],
    };
    assert_eq!(
        render::<Terminal>(view),
        "\x1B[0;31ma\x1B[0m\n\x1B[0;32mb\x1B[0m\x1B[0;34mc\x1B[0md"
    );
}

#[test]
fn browser_wraps_colored_spans() {
    let mut red = Span::new("a");
    red.style().fg(Color::Red);
    let view = View {
        spans: vec![red, Span::newline(), Span::new("b")],
    };
    let page = render::<Browser>(view);
    assert!(page.starts_with("<html>"));
    assert!(page.contains("<body><pre><span class=\"red\">a</span>\nb\n"));
    assert!(page.trim_end().ends_with("</html>"));
}

#[test]
fn arrows_point_from_where_it_comes() {
    let expect = [
        (CompassDirection::N, "↓"),
        (CompassDirection::NNE, "↙"),
        (CompassDirection::NE, "↙"),
        (CompassDirection::ENE, "↙"),
        (CompassDirection::E, "←"),
        (CompassDirection::ESE, "↖"),
        (CompassDirection::SE, "↖"),
        (CompassDirection::SSE, "↖"),
        (CompassDirection::S, "↑"),
        (CompassDirection::SSW, "↗"),
        (CompassDirection::SW, "↗"),
        (CompassDirection::WSW, "↗"),
        (CompassDirection::W, "→"),
        (CompassDirection::WNW, "↘"),
        (CompassDirection::NW, "↘"),
        (CompassDirection::NNW, "↘"),
    ];
    for (dir, arrow) in expect {
        assert_eq!(compass_to_arrow(dir), arrow);
    }
}

#[test]
fn local_time_labels() {
    let t = LocalTime::from_timestamp(MIDNIGHT).unwrap();
    assert_eq!(t.hour(), 0);
    assert_eq!(t.date_label(), "Thu Feb 24");
    assert_eq!(t.clock_label(), "12am");
    let evening = LocalTime::from_timestamp(MIDNIGHT + 21 * 3600).unwrap();
    assert_eq!(evening.hour(), 21);
    assert_eq!(evening.clock_label(), "9pm");
    let noon = LocalTime::from_timestamp(MIDNIGHT + 12 * 3600).unwrap();
    assert_eq!(noon.clock_label(), "12pm");
    let before_1970 = LocalTime::from_timestamp(-3600).unwrap();
    assert_eq!(before_1970.hour(), 23);
    assert!(LocalTime::from_timestamp(i64::MAX).is_none());
}

#[test]
fn units_have_their_symbols() {
    assert_eq!(UnitLength::Feet.as_str(), "ft");
    assert_eq!(UnitLength::Meters.as_str(), "m");
    assert_eq!(UnitSpeed::Kph.as_str(), "kph");
    assert_eq!(UnitTemperature::F.as_str(), "°F");
    assert_eq!(thesurfin::UnitType::Eu.as_str(), "eu");
}

#[test]
fn spots_look_up_names() {
    let spots = Spots::from_entries(vec![
        ("ormond-beach".to_string(), 4203),
        ("pipeline".to_string(), 616),
        ("ormond-beach".to_string(), 4204),
    ]);
    assert_eq!(spots.get_id("ormond-beach"), Some(4204));
    assert_eq!(spots.get_id("pipeline"), Some(616));
    assert_eq!(spots.get_id("nowhere"), None);
}

#[test]
fn spot_listing_is_sorted_and_aligned() {
    let view = View::spots(vec![("pipeline".to_string(), 616), ("ormond-beach".to_string(), 4203)]);
    let texts: Vec<String> = view.spans.iter().map(text).collect();
    assert_eq!(
        texts,
        vec!["ormond-beach : 4203 ", "\n", "    pipeline : 616  ", "\n"]
    );
}

#[test]
fn spot_ids_come_from_the_end_of_links() {
    use_spot_id_cases();
}

fn use_spot_id_cases() {
    let cases: [(&str, Option<u16>); 9] = [
        ("/Ormond-Beach-Surf-Report/4203/", Some(4203)),
        ("/Pipeline-Surf-Report/616", Some(616)),
        ("/a/b/+7//", Some(7)),
        ("/a/0065535", Some(65535)),
        ("/a/65536", None),
        ("/a/-1", None),
        ("/a/x12", None),
        ("4203", None),
        ("/a/", None),
    ];
    for (href, expected) in cases {
        assert_eq!(thesurfin::spots::spot_id_from_href(href), expected, "{href}");
    }
}

#[test]
fn user_agents_choose_the_renderer() {
    use_user_agent_cases();
}

fn use_user_agent_cases() {
    let terminal = thesurfin::RenderChoice::Terminal;
    let browser = thesurfin::RenderChoice::Browser;
    assert_eq!(thesurfin::RenderChoice::from_user_agent("curl/7.81.0"), terminal);
    assert_eq!(thesurfin::RenderChoice::from_user_agent("Wget/1.21"), browser);
    assert_eq!(thesurfin::RenderChoice::from_user_agent("python-requests/2.28"), terminal);
    assert_eq!(thesurfin::RenderChoice::from_user_agent("xh/0.18"), terminal);
    assert_eq!(thesurfin::RenderChoice::from_user_agent("Mozilla/5.0 (X11; Linux x86_64)"), browser);
    assert_eq!(thesurfin::RenderChoice::from_user_agent(""), browser);
    assert!(thesurfin::client::contains("abcabd", "abd"));
    assert!(!thesurfin::client::contains("ab", "abc"));
    assert!(thesurfin::client::contains("x", ""));
}

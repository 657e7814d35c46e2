use svg_graph::frac::Frac;
use svg_graph::graph::Coord;
use svg_graph::pie::Pie;
use svg_graph::text::int_to_decimal;
use svg_graph::{BarBuilder, ChartError, Entry, LineBuilder, PieBuilder, Tools};

fn four_entries() -> Vec<Entry> {
    vec![
        Entry::new("One".to_string(), 10),
        Entry::new("Two".to_string(), 20),
        Entry::new("Three".to_string(), 30),
        Entry::new("Four".to_string(), 5),
    ]
}

#[test]
fn bar_chart_columns() {
    // four entries on a 500x500 canvas with 15px padding: exactly four
    // columns, positive widths, non-negative heights, x strictly increasing
    let bar = match BarBuilder::new().entries(four_entries()).build() {
        Ok(b) => b,
        Err(_) => panic!("bar chart should build"),
    };
    let cols = bar.bars();
    assert_eq!(cols.len(), 4);
    for c in cols.iter() {
        assert!(c.width.num > 0 && c.width.den > 0);
        assert!(c.height.num >= 0 && c.height.den > 0);
    }
    for i in 0..cols.len() - 1 {
        assert!(cols[i].x.lt(&cols[i + 1].x));
    }
    // category segment is 440 / 4 = 110 pixels; value scale projects over
    // the snapped domain (0, 32) onto 440 pixels: 13.75 per unit
    assert_eq!(cols[0].x, Frac::from_int(0));
    assert_eq!(cols[1].x, Frac::from_int(110));
    assert_eq!(cols[3].x, Frac::from_int(330));
    assert_eq!(cols[0].height, Frac::new(275, 2));
    assert_eq!(cols[3].height, Frac::new(275, 4));
    assert_eq!(cols[0].y, Frac::new(605, 2));
    assert_eq!(cols[0].dx, Frac::new(110, 6));
    assert_eq!(cols[0].width, Frac::new(220, 3));
    assert_eq!(cols[0].fill, "rgba(131,43,189,0.6)");
}

#[test]
fn bar_chart_empty_dataset() {
    match BarBuilder::new().build() {
        Err(e) => assert_eq!(e, ChartError::EmptyDataset),
        Ok(_) => panic!("no entries must be rejected"),
    }
    match BarBuilder::new().entries(Vec::new()).build() {
        Err(e) => assert_eq!(e, ChartError::EmptyDataset),
        Ok(_) => panic!("zero entries must be rejected"),
    }
}

#[test]
fn bar_chart_all_zero_degenerates() {
    let entries = vec![Entry::new("a".to_string(), 0), Entry::new("b".to_string(), 0)];
    match BarBuilder::new().entries(entries).build() {
        Err(e) => assert_eq!(e, ChartError::DegenerateDomain),
        Ok(_) => panic!("an all-zero dataset must be rejected"),
    }
}

#[test]
fn bar_chart_constant_data_builds() {
    // all-equal positive values: zero is forced into the domain, so the
    // scale does not degenerate
    let entries = vec![
        Entry::new("a".to_string(), 7),
        Entry::new("b".to_string(), 7),
        Entry::new("c".to_string(), 7),
    ];
    assert!(BarBuilder::new().entries(entries).build().is_ok());
    // the same holds for constant negative values
    let entries = vec![Entry::new("a".to_string(), -3), Entry::new("b".to_string(), -3)];
    assert!(BarBuilder::new().entries(entries).build().is_ok());
}

#[test]
fn body_within_content() {
    // content size is 470x470 after padding; the plotting body must be a
    // proper sub-rectangle of (0, 0, 470, 470)
    let bar = match BarBuilder::new().entries(four_entries()).build() {
        Ok(b) => b,
        Err(_) => panic!("bar chart should build"),
    };
    let body = bar.axes.body();
    assert_eq!(body, Coord { x: 30, y: 0, width: 440, height: 440 });
    assert!(body.x >= 0 && body.y >= 0);
    assert!(body.x + body.width <= 470);
    assert!(body.y + body.height <= 470);
    assert!(body.width < 470 && body.height < 470);
    assert_eq!(body, bar.body);
}

#[test]
fn axis_value_labels() {
    let bar = match BarBuilder::new().entries(four_entries()).build() {
        Ok(b) => b,
        Err(_) => panic!("bar chart should build"),
    };
    // y scale: domain (0, 30) snapped to (0, 32) in steps of 2
    let values = bar.axes.values();
    assert_eq!(values.len(), 17);
    assert_eq!(values[0].label.text, "0");
    assert_eq!(values[1].label.text, "2");
    assert_eq!(values[16].label.text, "32");
    // the zero tick's separator takes the axis accent color
    assert_eq!(values[0].line.color, "rgb(13,16,17)");
    assert_eq!(values[1].line.color, "rgb(203,206,206)");
    // tick 0 sits at the bottom of the 440-pixel body, tick 2 at 13.75
    // pixels per unit above it
    assert_eq!(values[0].y, Frac::from_int(440));
    assert_eq!(values[1].y, Frac::new(825, 2));
    assert_eq!(values[0].line.x2, Frac::from_int(440));
}

#[test]
fn axis_category_labels() {
    let bar = match BarBuilder::new().entries(four_entries()).build() {
        Ok(b) => b,
        Err(_) => panic!("bar chart should build"),
    };
    let labels = bar.axes.labels(&bar.entries);
    assert_eq!(labels.len(), 4);
    assert_eq!(labels[0].label.text, "One");
    assert_eq!(labels[2].label.text, "Three");
    // labels are centred within their 110-pixel segment
    assert_eq!(labels[0].label.x, Frac::new(55, 1));
    assert_eq!(labels[1].x, Frac::from_int(110));
    assert_eq!(labels[0].y, Frac::from_int(440));
    assert_eq!(labels[0].line.y2, Frac::from_int(-440));
    // the first separator coincides with the y axis and keeps its color
    assert_eq!(labels[0].line.color, "rgb(13,16,17)");
    assert_eq!(labels[1].line.color, "rgb(203,206,206)");
}

#[test]
fn line_chart_points() {
    let entries = vec![
        Entry::new("One".to_string(), 120),
        Entry::new("Two".to_string(), 200),
        Entry::new("Three".to_string(), 290),
        Entry::new("Four".to_string(), 50),
        Entry::new("Five".to_string(), 21),
        Entry::new("Six".to_string(), 170),
        Entry::new("Seven".to_string(), 77),
        Entry::new("Eight".to_string(), 128),
    ];
    let line = match LineBuilder::new().width(500).height(500).entries(entries).build() {
        Ok(l) => l,
        Err(_) => panic!("line chart should build"),
    };
    let pts = line.points();
    assert_eq!(pts.len(), 8);
    // x: 440 pixels over 8 categories = 55 per entry
    assert_eq!(pts[0].0, Frac::from_int(0));
    assert_eq!(pts[1].0, Frac::from_int(55));
    assert_eq!(pts[7].0, Frac::from_int(385));
    // y: domain (0, 290) snapped to (0, 300), so 440/300 pixels per unit,
    // measured down from the body's top edge
    assert_eq!(pts[0].1, Frac::from_int(264));
    assert_eq!(pts[4].1, Frac::new(2046, 5));
}

#[test]
fn pie_chart_slices() {
    let entries = vec![
        Entry::new("One".to_string(), 10),
        Entry::new("Two".to_string(), 10),
        Entry::new("Three".to_string(), 20),
        Entry::new("Four".to_string(), 30),
        Entry::new("Five".to_string(), 5),
        Entry::new("Six".to_string(), 15),
        Entry::new("Seven".to_string(), 15),
        Entry::new("Eight".to_string(), 15),
        Entry::new("Nine".to_string(), 15),
        Entry::new("Ten".to_string(), 15),
    ];
    let pie = PieBuilder::new().entries(entries).build();
    assert_eq!(pie.sum, 150);
    assert_eq!(pie.body, Coord { x: 15, y: 15, width: 350, height: 470 });
    assert_eq!(pie.labels_body, Coord { x: 385, y: 45, width: 100, height: 440 });
    assert_eq!(pie.angle(30), Frac::new(1, 5));

    let arcs = pie.arcs();
    assert_eq!(arcs.len(), 10);
    assert_eq!(arcs[0].start, Frac::from_int(0));
    assert_eq!(arcs[0].end, Frac::new(1, 15));
    assert_eq!(arcs[0].text, "One (10)");
    assert_eq!(arcs[2].start, Frac::new(2, 15));
    assert_eq!(arcs[2].end, Frac::new(4, 15));
    assert_eq!(arcs[3].mid, Frac::new(11, 30));
    assert_eq!(arcs[9].end, Frac::from_int(1));
    assert_eq!(arcs[0].fill, "rgb(237,10,63)");
    assert_eq!(arcs[3].fill, "rgb(1,120,111)");

    let labels = pie.labels();
    assert_eq!(labels.len(), 10);
    assert_eq!(labels[0].text, "One");
    assert_eq!(labels[3].y, Frac::from_int(60));
    assert_eq!(labels[0].fill, "rgb(237,10,63)");
}

#[test]
fn line_chart_rejections() {
    match LineBuilder::new().build() {
        Err(e) => assert_eq!(e, ChartError::EmptyDataset),
        Ok(_) => panic!("no entries must be rejected"),
    }
    let zeros = vec![Entry::new("a".to_string(), 0)];
    match LineBuilder::new().entries(zeros).build() {
        Err(e) => assert_eq!(e, ChartError::DegenerateDomain),
        Ok(_) => panic!("an all-zero dataset must be rejected"),
    }
}

#[test]
fn pie_colors_cycle() {
    assert_eq!(Pie::color(0), Pie::color(10));
    assert_eq!(Pie::color(3), Pie::color(13));
    assert_eq!(Pie::color(9), Pie::color(29));
    assert_eq!(Pie::color(1), "rgb(231,114,0)");
}

#[test]
fn min_max_entry_values() {
    assert_eq!(Tools::min_max_entry_values(&four_entries()), (5, 30));
    let mixed = vec![Entry::new("a".to_string(), -4), Entry::new("b".to_string(), 9)];
    assert_eq!(Tools::min_max_entry_values(&mixed), (-4, 9));
    assert_eq!(Tools::min_max_entry_values(&Vec::new()), (i32::MAX, i32::MIN));
}

#[test]
fn decimal_rendering() {
    assert_eq!(int_to_decimal(0), "0");
    assert_eq!(int_to_decimal(7), "7");
    assert_eq!(int_to_decimal(-120), "-120");
    assert_eq!(int_to_decimal(987654), "987654");
    assert_eq!(int_to_decimal(-1), "-1");
}
